//! Command-line parsing for the MTR-compatible front end. The option syntax
//! mirrors `mtr`; the first problem found (left to right) is the one
//! reported.
use vstd::prelude::*;
use crate::fields::{default_fields, fields_of, parse_order_chars, Field};
use crate::engine::EngineConfig;
use crate::model::{Addr, ProbeProtocol, Span};
use crate::scan::{parse_uint, spec_parse_uint};
use crate::text::{chars_of, push_chars, string_of};

verus! {

/// Address family preference.
#[derive(Clone, Copy, Debug, PartialEq, Eq, Structural)]
pub enum Family {
    Auto,
    V4,
    V6,
}

/// What the program does once the trace runs.
#[derive(Clone, Copy, Debug, PartialEq, Eq, Structural)]
pub enum Mode {
    Interactive,
    Report,
    Json,
    Csv,
    Mtu,
}

/// What an argument reads as when taken as seconds (a decimal or scientific
/// float): not a number, a duration, or a number no duration can hold
/// (negative, infinite, NaN or too large).
#[derive(Clone, Copy, Debug, PartialEq, Eq, Structural)]
pub enum SecsValue {
    NotNumber,
    Valid(Span),
    Invalid,
}

/// The parsed command line.
pub struct Args {
    pub target: String,
    pub family: Family,
    pub proto: ProbeProtocol,
    pub port: u16,
    pub interval: Span,
    pub timeout: Span,
    pub first_ttl: u8,
    pub max_ttl: u8,
    pub psize: usize,
    pub flows: u8,
    pub cycles: u32,
    pub mode: Mode,
    pub no_dns: bool,
    pub show_ips: bool,
    pub wide: bool,
    pub mpls: bool,
    pub fields: Vec<Field>,
}

/// How parsing ended.
pub enum Outcome {
    /// Run with these arguments.
    Run(Args),
    /// `-h`: print the usage text and exit.
    Help,
    /// `-v`: print the version and exit.
    Version,
    /// A usage error, with its message.
    Error(String),
    /// A seconds value no duration can hold, with the argument text.
    InvalidSeconds(String),
}

/// The result of parsing: the notes printed along the way, and the outcome.
pub struct Parsed {
    pub notes: Vec<String>,
    pub outcome: Outcome,
}

/// The options gathered so far.
pub struct Draft {
    pub target: Option<String>,
    pub family: Family,
    pub proto: ProbeProtocol,
    pub port: u16,
    pub interval: Span,
    pub timeout: Span,
    pub first_ttl: u8,
    pub max_ttl: u8,
    pub psize: usize,
    pub flows: u8,
    pub cycles: u32,
    pub no_dns: bool,
    pub show_ips: bool,
    pub wide: bool,
    pub report: bool,
    pub json: bool,
    pub csv: bool,
    pub mtu: bool,
    pub mpls: bool,
    pub fields: Vec<Field>,
}

pub struct DraftView {
    pub target: Option<Seq<char>>,
    pub family: Family,
    pub proto: ProbeProtocol,
    pub port: u16,
    pub interval: Span,
    pub timeout: Span,
    pub first_ttl: u8,
    pub max_ttl: u8,
    pub psize: usize,
    pub flows: u8,
    pub cycles: u32,
    pub no_dns: bool,
    pub show_ips: bool,
    pub wide: bool,
    pub report: bool,
    pub json: bool,
    pub csv: bool,
    pub mtu: bool,
    pub mpls: bool,
    pub fields: Seq<Field>,
}

impl View for Draft {
    type V = DraftView;

    open spec fn view(&self) -> DraftView {
        DraftView {
            target: crate::session::opt_str(self.target),
            family: self.family,
            proto: self.proto,
            port: self.port,
            interval: self.interval,
            timeout: self.timeout,
            first_ttl: self.first_ttl,
            max_ttl: self.max_ttl,
            psize: self.psize,
            flows: self.flows,
            cycles: self.cycles,
            no_dns: self.no_dns,
            show_ips: self.show_ips,
            wide: self.wide,
            report: self.report,
            json: self.json,
            csv: self.csv,
            mtu: self.mtu,
            mpls: self.mpls,
            fields: self.fields@,
        }
    }
}

/// The defaults: ICMP, port 443, 1 s interval and timeout, TTLs 1 to 30,
/// 32-byte payload, one flow, 10 report cycles, the default columns.
pub open spec fn initial_draft() -> DraftView {
    DraftView {
        target: None,
        family: Family::Auto,
        proto: ProbeProtocol::Icmp,
        port: 443,
        interval: Span { secs: 1, nanos: 0 },
        timeout: Span { secs: 1, nanos: 0 },
        first_ttl: 1,
        max_ttl: 30,
        psize: 32,
        flows: 1,
        cycles: 10,
        no_dns: false,
        show_ips: false,
        wide: false,
        report: false,
        json: false,
        csv: false,
        mtu: false,
        mpls: false,
        fields: default_fields(),
    }
}

/// What one argument does: move on (to the next unread index, with the
/// options updated and perhaps a note), or stop parsing.
pub enum StepView {
    Next { st: DraftView, next: int, note: Option<Seq<char>> },
    Stop(StopView),
}

pub enum StopView {
    Help,
    Version,
    Error(Seq<char>),
    InvalidSeconds(Seq<char>),
}

pub open spec fn needs_value(name: Seq<char>) -> Seq<char> {
    "--"@ + name + " needs a value"@
}

pub open spec fn not_a_number(name: Seq<char>, raw: Seq<char>) -> Seq<char> {
    "--"@ + name + " value '"@ + raw + "' is not a number"@
}

pub open spec fn unknown_flag(a: Seq<char>) -> Seq<char> {
    "unknown flag '"@ + a + "'"@
}

/// The number an option's value gives, or the error it causes.
pub open spec fn num_value(args: Seq<Seq<char>>, i: int, name: Seq<char>, max: u64) -> Result<u64, Seq<char>> {
    if i + 1 >= args.len() {
        Err(needs_value(name))
    } else {
        match spec_parse_uint(args[i + 1], max) {
            Some(v) => Ok(v),
            None => Err(not_a_number(name, args[i + 1])),
        }
    }
}

/// The step of an option taking a number: set it and skip the value.
pub open spec fn num_step(
    st: DraftView,
    args: Seq<Seq<char>>,
    i: int,
    name: Seq<char>,
    max: u64,
    set: spec_fn(DraftView, u64) -> DraftView,
) -> StepView {
    match num_value(args, i, name, max) {
        Ok(v) => StepView::Next { st: set(st, v), next: i + 2, note: None },
        Err(m) => StepView::Stop(StopView::Error(m)),
    }
}

/// The step of an option taking seconds.
pub open spec fn secs_step(
    st: DraftView,
    args: Seq<Seq<char>>,
    secs: Seq<SecsValue>,
    i: int,
    name: Seq<char>,
    set: spec_fn(DraftView, Span) -> DraftView,
) -> StepView {
    if i + 1 >= args.len() {
        StepView::Stop(StopView::Error(needs_value(name)))
    } else {
        match secs[i + 1] {
            SecsValue::NotNumber => StepView::Stop(StopView::Error(not_a_number(name, args[i + 1]))),
            SecsValue::Invalid => StepView::Stop(StopView::InvalidSeconds(args[i + 1])),
            SecsValue::Valid(sp) => StepView::Next { st: set(st, sp), next: i + 2, note: None },
        }
    }
}

pub open spec fn flag(st: DraftView, i: int) -> StepView {
    StepView::Next { st, next: i + 1, note: None }
}

pub open spec fn xml_note() -> Seq<char> {
    "hopscout: note: XML output is not supported yet"@
}

pub open spec fn address_note() -> Seq<char> {
    "hopscout: note: source --address is not supported yet"@
}

/// The options a switch (an option without a value) sets, if `a` is one.
pub open spec fn switch_effect(st: DraftView, a: Seq<char>) -> Option<DraftView> {
    if a == "-r"@ || a == "--report"@ {
        Some(DraftView { report: true, ..st })
    } else if a == "-j"@ || a == "--json"@ {
        Some(DraftView { json: true, ..st })
    } else if a == "-C"@ || a == "--csv"@ {
        Some(DraftView { csv: true, ..st })
    } else if a == "--mtu"@ {
        Some(DraftView { mtu: true, ..st })
    } else if a == "-w"@ || a == "--report-wide"@ {
        Some(DraftView { wide: true, ..st })
    } else if a == "-n"@ || a == "--no-dns"@ {
        Some(DraftView { no_dns: true, ..st })
    } else if a == "-b"@ || a == "--show-ips"@ {
        Some(DraftView { show_ips: true, ..st })
    } else if a == "-e"@ || a == "--aslookup"@ {
        Some(st)
    } else if a == "-4"@ {
        Some(DraftView { family: Family::V4, ..st })
    } else if a == "-6"@ {
        Some(DraftView { family: Family::V6, ..st })
    } else if a == "-u"@ || a == "--udp"@ {
        Some(DraftView { proto: ProbeProtocol::Udp, ..st })
    } else if a == "-T"@ || a == "--tcp"@ {
        Some(DraftView { proto: ProbeProtocol::TcpSyn, ..st })
    } else if a == "-z"@ || a == "--mpls"@ {
        Some(DraftView { mpls: true, ..st })
    } else {
        None
    }
}

/// The step of an option that takes a value, if argument `i` is one.
pub open spec fn value_step(st: DraftView, args: Seq<Seq<char>>, secs: Seq<SecsValue>, i: int) -> Option<StepView> {
    let a = args[i];
    if a == "-c"@ || a == "--report-cycles"@ {
        Some(num_step(st, args, i, "report-cycles"@, u32::MAX as u64, |d: DraftView, v: u64| DraftView { cycles: v as u32, ..d }))
    } else if a == "-P"@ || a == "--port"@ {
        Some(num_step(st, args, i, "port"@, u16::MAX as u64, |d: DraftView, v: u64| DraftView { port: v as u16, ..d }))
    } else if a == "-s"@ || a == "--psize"@ {
        Some(num_step(st, args, i, "psize"@, usize::MAX as u64, |d: DraftView, v: u64| DraftView { psize: v as usize, ..d }))
    } else if a == "-m"@ || a == "--max-ttl"@ {
        Some(num_step(st, args, i, "max-ttl"@, u8::MAX as u64, |d: DraftView, v: u64| DraftView { max_ttl: v as u8, ..d }))
    } else if a == "-f"@ || a == "--first-ttl"@ {
        Some(num_step(st, args, i, "first-ttl"@, u8::MAX as u64, |d: DraftView, v: u64| DraftView { first_ttl: v as u8, ..d }))
    } else if a == "-i"@ || a == "--interval"@ {
        Some(secs_step(st, args, secs, i, "interval"@, |d: DraftView, sp: Span| DraftView { interval: sp, ..d }))
    } else if a == "--timeout"@ {
        Some(secs_step(st, args, secs, i, "timeout"@, |d: DraftView, sp: Span| DraftView { timeout: sp, ..d }))
    } else if a == "--flows"@ {
        Some(num_step(st, args, i, "flows"@, u8::MAX as u64, |d: DraftView, v: u64| DraftView { flows: v as u8, ..d }))
    } else if a == "-o"@ || a == "--order"@ {
        if i + 1 >= args.len() {
            Some(StepView::Stop(StopView::Error(needs_value("order"@))))
        } else {
            let f = fields_of(args[i + 1]);
            Some(StepView::Next {
                st: DraftView { fields: if f.len() == 0 { default_fields() } else { f }, ..st },
                next: i + 2,
                note: None,
            })
        }
    } else {
        None
    }
}

/// What argument `i` does. Switches and valued options are listed in the
/// usage text; `-x` and `-a <addr>` are accepted with a note; any other
/// argument starting with `-` is an error, and the rest is the target.
pub open spec fn spec_step(st: DraftView, args: Seq<Seq<char>>, secs: Seq<SecsValue>, i: int) -> StepView {
    let a = args[i];
    if a == "-h"@ || a == "--help"@ {
        StepView::Stop(StopView::Help)
    } else if a == "-v"@ || a == "-V"@ || a == "--version"@ {
        StepView::Stop(StopView::Version)
    } else if switch_effect(st, a) is Some {
        flag(switch_effect(st, a)->0, i)
    } else if value_step(st, args, secs, i) is Some {
        value_step(st, args, secs, i)->0
    } else if a == "-x"@ || a == "--xml"@ {
        StepView::Next { st, next: i + 1, note: Some(xml_note()) }
    } else if a == "-a"@ || a == "--address"@ {
        StepView::Next {
            st,
            next: if i + 2 <= args.len() { i + 2 } else { i + 1 },
            note: Some(address_note()),
        }
    } else if a.len() > 0 && a[0] == '-' {
        StepView::Stop(StopView::Error(unknown_flag(a)))
    } else if st.target is Some {
        StepView::Stop(StopView::Error("more than one target given"@))
    } else {
        StepView::Next { st: DraftView { target: Some(a), ..st }, next: i + 1, note: None }
    }
}

/// The mode the flags select (`--mtu` over JSON over CSV over report).
pub open spec fn mode_of(st: DraftView) -> Mode {
    if st.mtu {
        Mode::Mtu
    } else if st.json {
        Mode::Json
    } else if st.csv {
        Mode::Csv
    } else if st.report {
        Mode::Report
    } else {
        Mode::Interactive
    }
}

/// How parsing ends once every argument was read.
pub enum EndView {
    Run(DraftView),
    Stop(StopView),
}

pub open spec fn spec_finish(st: DraftView) -> EndView {
    if st.target is None {
        EndView::Stop(StopView::Error("missing target host"@))
    } else if st.max_ttl == 0 {
        EndView::Stop(StopView::Error("max-ttl must be >= 1"@))
    } else {
        EndView::Run(st)
    }
}

/// Parsing from argument `i` on, with the options `st` and the notes so far.
pub open spec fn spec_run(
    st: DraftView,
    args: Seq<Seq<char>>,
    secs: Seq<SecsValue>,
    i: int,
    notes: Seq<Seq<char>>,
) -> (Seq<Seq<char>>, EndView)
    decreases args.len() - i,
{
    if i < 0 || i >= args.len() {
        (notes, spec_finish(st))
    } else {
        match spec_step(st, args, secs, i) {
            StepView::Next { st: st2, next, note } => if next > i {
                spec_run(
                    st2,
                    args,
                    secs,
                    next,
                    match note {
                        Some(n) => notes.push(n),
                        None => notes,
                    },
                )
            } else {
                (notes, spec_finish(st))
            },
            StepView::Stop(s) => (notes, EndView::Stop(s)),
        }
    }
}

/// The notes and outcome of parsing a whole command line.
pub open spec fn spec_parse_args(args: Seq<Seq<char>>, secs: Seq<SecsValue>) -> (Seq<Seq<char>>, EndView) {
    spec_run(initial_draft(), args, secs, 0, Seq::empty())
}

proof fn lemma_runs_finish(st: DraftView, args: Seq<Seq<char>>, secs: Seq<SecsValue>, i: int, notes: Seq<Seq<char>>)
    ensures
        spec_run(st, args, secs, i, notes).1 matches EndView::Run(r) ==> r.target is Some && r.max_ttl >= 1,
    decreases args.len() - i,
{
    if 0 <= i < args.len() {
        match spec_step(st, args, secs, i) {
            StepView::Next { st: st2, next, note } => {
                if next > i {
                    lemma_runs_finish(st2, args, secs, next, match note {
                        Some(n) => notes.push(n),
                        None => notes,
                    });
                }
            },
            StepView::Stop(_) => {},
        }
    }
}

/// A command line that parses to a run names a target and asks for at least
/// one hop, which is what the engine settings need.
pub proof fn runs_have_target_and_hops(args: Seq<Seq<char>>, secs: Seq<SecsValue>)
    ensures
        spec_parse_args(args, secs).1 matches EndView::Run(r) ==> r.target is Some && r.max_ttl >= 1,
{
    lemma_runs_finish(initial_draft(), args, secs, 0, Seq::empty());
}

/// The mode follows the mode flags by priority: `--mtu` wins; otherwise JSON
/// is chosen exactly when `-j`/`--json` was given, CSV exactly when
/// `-C`/`--csv` was given without JSON, a text report exactly when only
/// `-r`/`--report` was, and the live view when none was.
pub proof fn mode_follows_flags(st: DraftView)
    ensures
        mode_of(st) == Mode::Mtu <==> st.mtu,
        mode_of(st) == Mode::Json <==> (st.json && !st.mtu),
        mode_of(st) == Mode::Csv <==> (st.csv && !st.json && !st.mtu),
        mode_of(st) == Mode::Report <==> (st.report && !st.csv && !st.json && !st.mtu),
        mode_of(st) == Mode::Interactive <==> (!st.report && !st.csv && !st.json && !st.mtu),
{
}

/// Reading `-j` or `--json` sets the JSON flag, changes nothing else, and
/// moves on to the next argument.
pub proof fn json_switch_sets_json(st: DraftView, args: Seq<Seq<char>>, secs: Seq<SecsValue>, i: int)
    requires
        0 <= i < args.len(),
        args[i] == "-j"@ || args[i] == "--json"@,
    ensures
        spec_step(st, args, secs, i) == (StepView::Next { st: DraftView { json: true, ..st }, next: i + 1, note: None }),
{
    reveal_strlit("-h");
    reveal_strlit("--help");
    reveal_strlit("-v");
    reveal_strlit("-V");
    reveal_strlit("--version");
    reveal_strlit("-r");
    reveal_strlit("--report");
    reveal_strlit("-j");
    reveal_strlit("--json");
    let a = args[i];
    assert(a != "-h"@ && a != "--help"@ && a != "-v"@ && a != "-V"@ && a != "--version"@) by {
        if a == "-j"@ {
            assert(a[1] == 'j');
        } else {
            assert(a.len() == 6);
        }
    }
    assert(a != "-r"@ && a != "--report"@) by {
        if a == "-j"@ {
            assert(a[1] == 'j');
        } else {
            assert(a[2] == 'j');
        }
    }
}

proof fn lemma_step_keeps_modes(st: DraftView, args: Seq<Seq<char>>, secs: Seq<SecsValue>, i: int)
    requires
        0 <= i < args.len(),
    ensures
        spec_step(st, args, secs, i) matches StepView::Next { st: st2, .. } ==> {
            &&& st.json ==> st2.json
            &&& st2.mtu ==> (st.mtu || args[i] == "--mtu"@)
        },
{
}

proof fn lemma_run_keeps_json(
    st: DraftView,
    args: Seq<Seq<char>>,
    secs: Seq<SecsValue>,
    i: int,
    notes: Seq<Seq<char>>,
)
    requires
        st.json,
        !st.mtu,
        forall|j: int| i <= j < args.len() ==> #[trigger] args[j] != "--mtu"@,
    ensures
        spec_run(st, args, secs, i, notes).1 matches EndView::Run(r) ==> r.json && !r.mtu,
    decreases args.len() - i,
{
    if 0 <= i < args.len() {
        lemma_step_keeps_modes(st, args, secs, i);
        match spec_step(st, args, secs, i) {
            StepView::Next { st: st2, next, note } => {
                if next > i {
                    assert(args[i] != "--mtu"@);
                    lemma_run_keeps_json(st2, args, secs, next, match note {
                        Some(n) => notes.push(n),
                        None => notes,
                    });
                }
            },
            StepView::Stop(_) => {},
        }
    }
}

/// Once `-j`/`--json` is read, a run that follows is in JSON mode unless an
/// `--mtu` comes after it.
pub proof fn json_switch_runs_json(
    st: DraftView,
    args: Seq<Seq<char>>,
    secs: Seq<SecsValue>,
    i: int,
    notes: Seq<Seq<char>>,
)
    requires
        0 <= i < args.len(),
        args[i] == "-j"@ || args[i] == "--json"@,
        !st.mtu,
        forall|j: int| i <= j < args.len() ==> #[trigger] args[j] != "--mtu"@,
    ensures
        spec_run(st, args, secs, i, notes).1 matches EndView::Run(r) ==> mode_of(r) == Mode::Json,
{
    json_switch_sets_json(st, args, secs, i);
    lemma_run_keeps_json(DraftView { json: true, ..st }, args, secs, i + 1, notes);
}

/// An argument that does not start with `-` is the target: read while no
/// target is known, it sets the target, changes nothing else, and moves on
/// to the next argument.
pub proof fn target_argument_sets_target(st: DraftView, args: Seq<Seq<char>>, secs: Seq<SecsValue>, i: int)
    requires
        0 <= i < args.len(),
        args[i].len() > 0,
        args[i][0] != '-',
        st.target is None,
    ensures
        spec_step(st, args, secs, i) == (StepView::Next {
            st: DraftView { target: Some(args[i]), ..st },
            next: i + 1,
            note: None,
        }),
{
    reveal_strlit("-h");
    reveal_strlit("--help");
    reveal_strlit("-v");
    reveal_strlit("-V");
    reveal_strlit("--version");
    reveal_strlit("-r");
    reveal_strlit("--report");
    reveal_strlit("-j");
    reveal_strlit("--json");
    reveal_strlit("-C");
    reveal_strlit("--csv");
    reveal_strlit("--mtu");
    reveal_strlit("-w");
    reveal_strlit("--report-wide");
    reveal_strlit("-n");
    reveal_strlit("--no-dns");
    reveal_strlit("-b");
    reveal_strlit("--show-ips");
    reveal_strlit("-e");
    reveal_strlit("--aslookup");
    reveal_strlit("-4");
    reveal_strlit("-6");
    reveal_strlit("-u");
    reveal_strlit("--udp");
    reveal_strlit("-T");
    reveal_strlit("--tcp");
    reveal_strlit("-z");
    reveal_strlit("--mpls");
    reveal_strlit("-c");
    reveal_strlit("--report-cycles");
    reveal_strlit("-P");
    reveal_strlit("--port");
    reveal_strlit("-s");
    reveal_strlit("--psize");
    reveal_strlit("-m");
    reveal_strlit("--max-ttl");
    reveal_strlit("-f");
    reveal_strlit("--first-ttl");
    reveal_strlit("-i");
    reveal_strlit("--interval");
    reveal_strlit("--timeout");
    reveal_strlit("--flows");
    reveal_strlit("-o");
    reveal_strlit("--order");
    reveal_strlit("-x");
    reveal_strlit("--xml");
    reveal_strlit("-a");
    reveal_strlit("--address");
}

/// The JSON mode of a command line of a target and `-j`/`--json`, in either
/// order: it runs in JSON mode.
pub proof fn target_and_json_run_json(t: Seq<char>, j: Seq<char>, secs: Seq<SecsValue>)
    requires
        t.len() > 0,
        t[0] != '-',
        j == "-j"@ || j == "--json"@,
    ensures
        spec_parse_args(seq![t, j], secs).1 matches EndView::Run(r) && mode_of(r) == Mode::Json,
        spec_parse_args(seq![j, t], secs).1 matches EndView::Run(r) && mode_of(r) == Mode::Json,
{
    reveal_strlit("--mtu");
    reveal_strlit("-j");
    reveal_strlit("--json");
    let a1 = seq![t, j];
    let a2 = seq![j, t];
    assert(j != "--mtu"@) by {
        if j == "-j"@ {
            assert(j.len() == 2);
        } else {
            assert(j[2] == 'j');
        }
    }
    assert(t != "--mtu"@) by {
        assert(t[0] != '-');
    }
    let e = Seq::<Seq<char>>::empty();
    let st0 = initial_draft();
    assert(a1.len() == 2 && a1[0] == t && a1[1] == j);
    assert(a2.len() == 2 && a2[0] == j && a2[1] == t);
    target_argument_sets_target(st0, a1, secs, 0);
    let st1 = DraftView { target: Some(t), ..st0 };
    json_switch_sets_json(st1, a1, secs, 1);
    let st3 = DraftView { json: true, ..st1 };
    assert(spec_run(st3, a1, secs, 2, e) == (e, spec_finish(st3)));
    assert(spec_run(st1, a1, secs, 1, e) == spec_run(st3, a1, secs, 2, e));
    assert(spec_run(st0, a1, secs, 0, e) == spec_run(st1, a1, secs, 1, e));
    json_switch_sets_json(st0, a2, secs, 0);
    let st2 = DraftView { json: true, ..st0 };
    target_argument_sets_target(st2, a2, secs, 1);
    let st4 = DraftView { target: Some(t), ..st2 };
    assert(spec_run(st4, a2, secs, 2, e) == (e, spec_finish(st4)));
    assert(spec_run(st2, a2, secs, 1, e) == spec_run(st4, a2, secs, 2, e));
    assert(spec_run(st0, a2, secs, 0, e) == spec_run(st2, a2, secs, 1, e));
}

/// A command line that starts with `-j`/`--json` and has no `--mtu` runs, if
/// it runs at all, in JSON mode.
pub proof fn json_command_line_runs_json(args: Seq<Seq<char>>, secs: Seq<SecsValue>)
    requires
        args.len() > 0,
        args[0] == "-j"@ || args[0] == "--json"@,
        forall|j: int| 0 <= j < args.len() ==> #[trigger] args[j] != "--mtu"@,
    ensures
        spec_parse_args(args, secs).1 matches EndView::Run(r) ==> mode_of(r) == Mode::Json,
{
    json_switch_runs_json(initial_draft(), args, secs, 0, Seq::empty());
}

/// The arguments a finished draft becomes.
pub open spec fn args_match(a: Args, st: DraftView) -> bool {
    &&& st.target == Some(a.target@)
    &&& a.family == st.family
    &&& a.proto == st.proto
    &&& a.port == st.port
    &&& a.interval == st.interval
    &&& a.timeout == st.timeout
    &&& a.first_ttl == st.first_ttl
    &&& a.max_ttl == st.max_ttl
    &&& a.psize == st.psize
    &&& a.flows == st.flows
    &&& a.cycles == st.cycles
    &&& a.mode == mode_of(st)
    &&& a.no_dns == st.no_dns
    &&& a.show_ips == st.show_ips
    &&& a.wide == st.wide
    &&& a.mpls == st.mpls
    &&& a.fields@ == st.fields
}

/// Whether an outcome is the one an end view describes.
pub open spec fn outcome_match(o: Outcome, e: EndView) -> bool {
    match (o, e) {
        (Outcome::Run(a), EndView::Run(st)) => args_match(a, st),
        (Outcome::Help, EndView::Stop(StopView::Help)) => true,
        (Outcome::Version, EndView::Stop(StopView::Version)) => true,
        (Outcome::Error(m), EndView::Stop(StopView::Error(v))) => m@ == v,
        (Outcome::InvalidSeconds(m), EndView::Stop(StopView::InvalidSeconds(v))) => m@ == v,
        _ => false,
    }
}

fn arg_is(a: &Vec<char>, lit: &str) -> (b: bool)
    ensures
        b == (a@ == lit@),
{
    let l = chars_of(lit);
    if l.len() != a.len() {
        return false;
    }
    let mut i: usize = 0;
    while i < l.len()
        invariant
            i <= l@.len(),
            l@ == lit@,
            l@.len() == a@.len(),
            forall|k: int| 0 <= k < i ==> a@[k] == l@[k],
        decreases l@.len() - i,
    {
        if a[i] != l[i] {
            return false;
        }
        i = i + 1;
    }
    assert(a@ =~= l@);
    true
}

fn needs_value_msg(name: &str) -> (s: String)
    ensures
        s@ == needs_value(name@),
{
    let mut s = String::from_str("--");
    s.append(name);
    s.append(" needs a value");
    s
}

fn not_a_number_msg(name: &str, raw: &Vec<char>) -> (s: String)
    ensures
        s@ == not_a_number(name@, raw@),
{
    let mut s = String::from_str("--");
    s.append(name);
    s.append(" value '");
    crate::text::push_chars(&mut s, raw);
    s.append("' is not a number");
    s
}

/// An executable step's result.
pub enum StepResult {
    Next(usize, Option<String>),
    Stop(Outcome),
}

/// Whether a step result is the one a step view describes.
pub open spec fn step_match(r: StepResult, d: DraftView, v: StepView) -> bool {
    match (r, v) {
        (StepResult::Next(n, note), StepView::Next { st, next, note: nv }) => n == next && d == st
            && crate::session::opt_str(note) == nv,
        (StepResult::Stop(o), StepView::Stop(s)) => outcome_match(o, EndView::Stop(s)),
        _ => false,
    }
}

/// The number the value after option `i` gives, the way `str::parse` reads an
/// unsigned number no larger than `max`, or the usage error it causes.
pub fn next_num(args: &Vec<Vec<char>>, i: usize, name: &str, max: u64) -> (r: Result<u64, String>)
    requires
        i < args@.len(),
    ensures
        match (r, num_value(args@.map_values(|a: Vec<char>| a@), i as int, name@, max)) {
            (Ok(v), Ok(w)) => v == w,
            (Err(m), Err(w)) => m@ == w,
            _ => false,
        },
{
    let ghost av = args@.map_values(|a: Vec<char>| a@);
    if i >= args.len() - 1 {
        return Err(needs_value_msg(name));
    }
    assert(av[i + 1] == args@[i + 1]@);
    match parse_uint(&args[i + 1], max) {
        Some(v) => Ok(v),
        None => Err(not_a_number_msg(name, &args[i + 1])),
    }
}

fn secs_arg(args: &Vec<Vec<char>>, secs: &Vec<SecsValue>, i: usize, name: &str) -> (r: Result<Span, Outcome>)
    requires
        i < args@.len(),
        secs@.len() == args@.len(),
    ensures
        ({
            let av = args@.map_values(|a: Vec<char>| a@);
            match r {
                Ok(sp) => i + 1 < av.len() && secs@[i + 1] == SecsValue::Valid(sp),
                Err(o) => match secs_step(
                    initial_draft(),
                    av,
                    secs@,
                    i as int,
                    name@,
                    |d: DraftView, sp: Span| d,
                ) {
                    StepView::Stop(s) => outcome_match(o, EndView::Stop(s)),
                    _ => false,
                },
            }
        }),
{
    let ghost av = args@.map_values(|a: Vec<char>| a@);
    if i >= args.len() - 1 {
        return Err(Outcome::Error(needs_value_msg(name)));
    }
    assert(av[i + 1] == args@[i + 1]@);
    match secs[i + 1] {
        SecsValue::NotNumber => Err(Outcome::Error(not_a_number_msg(name, &args[i + 1]))),
        SecsValue::Invalid => Err(Outcome::InvalidSeconds(crate::text::string_of(&args[i + 1]))),
        SecsValue::Valid(sp) => Ok(sp),
    }
}

fn flag_msg(prefix: &str, a: &Vec<char>, suffix: &str) -> (s: String)
    ensures
        s@ == prefix@ + a@ + suffix@,
{
    let mut s = String::from_str(prefix);
    push_chars(&mut s, a);
    s.append(suffix);
    s
}

/// Apply `a` if it is a switch; say whether it was.
fn apply_switch(d: &mut Draft, a: &Vec<char>) -> (b: bool)
    ensures
        b == switch_effect(old(d)@, a@) is Some,
        b ==> final(d)@ == switch_effect(old(d)@, a@)->0,
        !b ==> final(d)@ == old(d)@,
{
    if arg_is(a, "-r") || arg_is(a, "--report") {
        d.report = true;
    } else if arg_is(a, "-j") || arg_is(a, "--json") {
        d.json = true;
    } else if arg_is(a, "-C") || arg_is(a, "--csv") {
        d.csv = true;
    } else if arg_is(a, "--mtu") {
        d.mtu = true;
    } else if arg_is(a, "-w") || arg_is(a, "--report-wide") {
        d.wide = true;
    } else if arg_is(a, "-n") || arg_is(a, "--no-dns") {
        d.no_dns = true;
    } else if arg_is(a, "-b") || arg_is(a, "--show-ips") {
        d.show_ips = true;
    } else if arg_is(a, "-e") || arg_is(a, "--aslookup") {
    } else if arg_is(a, "-4") {
        d.family = Family::V4;
    } else if arg_is(a, "-6") {
        d.family = Family::V6;
    } else if arg_is(a, "-u") || arg_is(a, "--udp") {
        d.proto = ProbeProtocol::Udp;
    } else if arg_is(a, "-T") || arg_is(a, "--tcp") {
        d.proto = ProbeProtocol::TcpSyn;
    } else if arg_is(a, "-z") || arg_is(a, "--mpls") {
        d.mpls = true;
    } else {
        return false;
    }
    true
}

/// The options that take a number.
#[derive(Clone, Copy, PartialEq, Eq, Structural)]
enum NumOption {
    Cycles,
    Port,
    Psize,
    MaxTtl,
    FirstTtl,
    Flows,
}

/// The step an option taking a number makes at argument `i`.
spec fn num_option_step(o: NumOption, st: DraftView, args: Seq<Seq<char>>, i: int) -> StepView {
    match o {
        NumOption::Cycles => num_step(st, args, i, "report-cycles"@, u32::MAX as u64, |d: DraftView, v: u64| DraftView { cycles: v as u32, ..d }),
        NumOption::Port => num_step(st, args, i, "port"@, u16::MAX as u64, |d: DraftView, v: u64| DraftView { port: v as u16, ..d }),
        NumOption::Psize => num_step(st, args, i, "psize"@, usize::MAX as u64, |d: DraftView, v: u64| DraftView { psize: v as usize, ..d }),
        NumOption::MaxTtl => num_step(st, args, i, "max-ttl"@, u8::MAX as u64, |d: DraftView, v: u64| DraftView { max_ttl: v as u8, ..d }),
        NumOption::FirstTtl => num_step(st, args, i, "first-ttl"@, u8::MAX as u64, |d: DraftView, v: u64| DraftView { first_ttl: v as u8, ..d }),
        NumOption::Flows => num_step(st, args, i, "flows"@, u8::MAX as u64, |d: DraftView, v: u64| DraftView { flows: v as u8, ..d }),
    }
}

fn num_option(d: &mut Draft, args: &Vec<Vec<char>>, i: usize, o: NumOption) -> (r: StepResult)
    requires
        i < args@.len(),
    ensures
        step_match(r, final(d)@, num_option_step(o, old(d)@, args@.map_values(|a: Vec<char>| a@), i as int)),
        r matches StepResult::Next(n, _) ==> n == i + 2 && n <= args@.len(),
{
    let (name, max): (&str, u64) = match o {
        NumOption::Cycles => ("report-cycles", u32::MAX as u64),
        NumOption::Port => ("port", u16::MAX as u64),
        NumOption::Psize => ("psize", usize::MAX as u64),
        NumOption::MaxTtl => ("max-ttl", u8::MAX as u64),
        NumOption::FirstTtl => ("first-ttl", u8::MAX as u64),
        NumOption::Flows => ("flows", u8::MAX as u64),
    };
    let len = args.len();
    match next_num(args, i, name, max) {
        Ok(v) => {
            match o {
                NumOption::Cycles => d.cycles = v as u32,
                NumOption::Port => d.port = v as u16,
                NumOption::Psize => d.psize = v as usize,
                NumOption::MaxTtl => d.max_ttl = v as u8,
                NumOption::FirstTtl => d.first_ttl = v as u8,
                NumOption::Flows => d.flows = v as u8,
            }
            StepResult::Next(i + 2, None)
        },
        Err(m) => StepResult::Stop(Outcome::Error(m)),
    }
}

/// Apply `args[i]` if it is an option that takes a value.
fn apply_valued(d: &mut Draft, args: &Vec<Vec<char>>, secs: &Vec<SecsValue>, i: usize) -> (r: Option<StepResult>)
    requires
        i < args@.len(),
        secs@.len() == args@.len(),
    ensures
        ({
            let v = value_step(old(d)@, args@.map_values(|a: Vec<char>| a@), secs@, i as int);
            match r {
                None => v is None && final(d)@ == old(d)@,
                Some(s) => v is Some && step_match(s, final(d)@, v->0),
            }
        }),
        r matches Some(StepResult::Next(n, _)) ==> i < n <= args@.len(),
{
    let ghost av = args@.map_values(|a: Vec<char>| a@);
    let len = args.len();
    let a = &args[i];
    assert(av[i as int] == a@);
    if arg_is(a, "-c") || arg_is(a, "--report-cycles") {
        Some(num_option(d, args, i, NumOption::Cycles))
    } else if arg_is(a, "-P") || arg_is(a, "--port") {
        Some(num_option(d, args, i, NumOption::Port))
    } else if arg_is(a, "-s") || arg_is(a, "--psize") {
        Some(num_option(d, args, i, NumOption::Psize))
    } else if arg_is(a, "-m") || arg_is(a, "--max-ttl") {
        Some(num_option(d, args, i, NumOption::MaxTtl))
    } else if arg_is(a, "-f") || arg_is(a, "--first-ttl") {
        Some(num_option(d, args, i, NumOption::FirstTtl))
    } else if arg_is(a, "-i") || arg_is(a, "--interval") {
        match secs_arg(args, secs, i, "interval") {
            Ok(sp) => {
                d.interval = sp;
                Some(StepResult::Next(i + 2, None))
            },
            Err(o) => Some(StepResult::Stop(o)),
        }
    } else if arg_is(a, "--timeout") {
        match secs_arg(args, secs, i, "timeout") {
            Ok(sp) => {
                d.timeout = sp;
                Some(StepResult::Next(i + 2, None))
            },
            Err(o) => Some(StepResult::Stop(o)),
        }
    } else if arg_is(a, "--flows") {
        Some(num_option(d, args, i, NumOption::Flows))
    } else if arg_is(a, "-o") || arg_is(a, "--order") {
        if i >= len - 1 {
            return Some(StepResult::Stop(Outcome::Error(needs_value_msg("order"))));
        }
        assert(av[i + 1] == args@[i + 1]@);
        d.fields = parse_order_chars(&args[i + 1]);
        Some(StepResult::Next(i + 2, None))
    } else {
        None
    }
}

/// The effect of argument `i` on the options gathered so far.
fn step(d: &mut Draft, args: &Vec<Vec<char>>, secs: &Vec<SecsValue>, i: usize) -> (r: StepResult)
    requires
        i < args@.len(),
        secs@.len() == args@.len(),
    ensures
        step_match(r, final(d)@, spec_step(old(d)@, args@.map_values(|a: Vec<char>| a@), secs@, i as int)),
        r matches StepResult::Next(n, _) ==> i < n <= args@.len(),
{
    let ghost av = args@.map_values(|a: Vec<char>| a@);
    let len = args.len();
    let a = &args[i];
    assert(av[i as int] == a@);
    if arg_is(a, "-h") || arg_is(a, "--help") {
        return StepResult::Stop(Outcome::Help);
    }
    if arg_is(a, "-v") || arg_is(a, "-V") || arg_is(a, "--version") {
        return StepResult::Stop(Outcome::Version);
    }
    if apply_switch(d, a) {
        return StepResult::Next(i + 1, None);
    }
    if let Some(r) = apply_valued(d, args, secs, i) {
        return r;
    }
    if arg_is(a, "-x") || arg_is(a, "--xml") {
        return StepResult::Next(i + 1, Some(String::from_str("hopscout: note: XML output is not supported yet")));
    }
    if arg_is(a, "-a") || arg_is(a, "--address") {
        let next = if i < len - 1 { i + 2 } else { i + 1 };
        return StepResult::Next(next, Some(String::from_str("hopscout: note: source --address is not supported yet")));
    }
    if a.len() > 0 && a[0] == '-' {
        return StepResult::Stop(Outcome::Error(flag_msg("unknown flag '", a, "'")));
    }
    if d.target.is_some() {
        return StepResult::Stop(Outcome::Error(String::from_str("more than one target given")));
    }
    d.target = Some(string_of(a));
    StepResult::Next(i + 1, None)
}

fn mode_from(d: &Draft) -> (m: Mode)
    ensures
        m == mode_of(d@),
{
    if d.mtu {
        Mode::Mtu
    } else if d.json {
        Mode::Json
    } else if d.csv {
        Mode::Csv
    } else if d.report {
        Mode::Report
    } else {
        Mode::Interactive
    }
}

/// The outcome once every argument was read.
fn finish(d: Draft) -> (o: Outcome)
    ensures
        outcome_match(o, spec_finish(d@)),
{
    let mode = mode_from(&d);
    let Draft {
        target,
        family,
        proto,
        port,
        interval,
        timeout,
        first_ttl,
        max_ttl,
        psize,
        flows,
        cycles,
        no_dns,
        show_ips,
        wide,
        report: _,
        json: _,
        csv: _,
        mtu: _,
        mpls,
        fields,
    } = d;
    match target {
        None => Outcome::Error(String::from_str("missing target host")),
        Some(t) => {
            if max_ttl == 0 {
                Outcome::Error(String::from_str("max-ttl must be >= 1"))
            } else {
                Outcome::Run(
                    Args {
                        target: t,
                        family,
                        proto,
                        port,
                        interval,
                        timeout,
                        first_ttl,
                        max_ttl,
                        psize,
                        flows,
                        cycles,
                        mode,
                        no_dns,
                        show_ips,
                        wide,
                        mpls,
                        fields,
                    },
                )
            }
        },
    }
}

fn initial() -> (d: Draft)
    ensures
        d@ == initial_draft(),
{
    Draft {
        target: None,
        family: Family::Auto,
        proto: ProbeProtocol::Icmp,
        port: 443,
        interval: Span { secs: 1, nanos: 0 },
        timeout: Span { secs: 1, nanos: 0 },
        first_ttl: 1,
        max_ttl: 30,
        psize: 32,
        flows: 1,
        cycles: 10,
        no_dns: false,
        show_ips: false,
        wide: false,
        report: false,
        json: false,
        csv: false,
        mtu: false,
        mpls: false,
        fields: crate::fields::default(),
    }
}

/// Parse the command line (the arguments after the program name). `secs`
/// holds, for each argument, what it reads as when taken as seconds; only
/// the values of `-i`/`--interval` and `--timeout` are looked at.
pub fn parse_args(args: &Vec<String>, secs: &Vec<SecsValue>) -> (p: Parsed)
    requires
        secs@.len() == args@.len(),
    ensures
        p.notes@.map_values(|s: String| s@) == spec_parse_args(args@.map_values(|s: String| s@), secs@).0,
        outcome_match(p.outcome, spec_parse_args(args@.map_values(|s: String| s@), secs@).1),
{
    let ghost av = args@.map_values(|s: String| s@);
    let mut cs: Vec<Vec<char>> = Vec::new();
    let mut k: usize = 0;
    while k < args.len()
        invariant
            k <= args@.len(),
            cs@.len() == k,
            forall|j: int| 0 <= j < k ==> #[trigger] cs@[j]@ == args@[j]@,
        decreases args@.len() - k,
    {
        cs.push(chars_of(args[k].as_str()));
        k = k + 1;
    }
    assert(cs@.map_values(|a: Vec<char>| a@) =~= av);
    let mut d = initial();
    let mut notes: Vec<String> = Vec::new();
    let mut i: usize = 0;
    assert(notes@.map_values(|s: String| s@) =~= Seq::<Seq<char>>::empty());
    while i < cs.len()
        invariant
            i <= cs@.len(),
            secs@.len() == cs@.len(),
            cs@.map_values(|a: Vec<char>| a@) == av,
            av == args@.map_values(|s: String| s@),
            spec_run(d@, av, secs@, i as int, notes@.map_values(|s: String| s@)) == spec_parse_args(av, secs@),
        decreases cs@.len() - i,
    {
        let ghost before = d@;
        let ghost nv = notes@.map_values(|s: String| s@);
        assert(spec_run(before, av, secs@, i as int, nv) == match spec_step(before, av, secs@, i as int) {
            StepView::Next { st: st2, next, note } => if next > i {
                spec_run(st2, av, secs@, next, match note {
                    Some(n) => nv.push(n),
                    None => nv,
                })
            } else {
                (nv, spec_finish(before))
            },
            StepView::Stop(s) => (nv, EndView::Stop(s)),
        });
        match step(&mut d, &cs, secs, i) {
            StepResult::Next(n, note) => {
                match note {
                    Some(m) => {
                        notes.push(m);
                        assert(notes@.map_values(|s: String| s@) =~= nv.push(m@));
                    },
                    None => {},
                }
                i = n;
            },
            StepResult::Stop(o) => {
                return Parsed { notes, outcome: o };
            },
        }
    }
    Parsed { notes, outcome: finish(d) }
}

/// The engine settings a parsed command line asks for toward `target`: the
/// first TTL is kept within `1..=max_ttl` and at least one flow is used.
pub fn engine_config(args: &Args, target: Addr) -> (c: EngineConfig)
    requires
        args.max_ttl >= 1,
    ensures
        c.target == target,
        c.interval == args.interval,
        c.timeout == args.timeout,
        c.max_hops == args.max_ttl,
        c.first_ttl == if args.first_ttl < 1 { 1 } else if args.first_ttl > args.max_ttl { args.max_ttl } else { args.first_ttl },
        c.payload_size == args.psize,
        c.flows == if args.flows < 1 { 1 } else { args.flows },
        c.protocol == args.proto,
{
    let mut c = EngineConfig::new(target);
    c.interval = args.interval;
    c.timeout = args.timeout;
    c.max_hops = args.max_ttl;
    c.first_ttl = if args.first_ttl < 1 {
        1
    } else if args.first_ttl > args.max_ttl {
        args.max_ttl
    } else {
        args.first_ttl
    };
    c.payload_size = args.psize;
    c.flows = if args.flows < 1 { 1 } else { args.flows };
    c.protocol = args.proto;
    c
}

} // verus!
