//! MTR-style stat-field selection for the table columns and text report
//! (`-o`/`--order`). Letters: L loss, S sent, R recv, D drop, N last, A avg,
//! B best, W worst, V stddev, P p95.
use vstd::prelude::*;

verus! {

#[derive(Clone, Copy, Debug, PartialEq, Eq, Structural)]
pub enum Field {
    Loss,
    Snt,
    Recv,
    Drop,
    Last,
    Avg,
    Best,
    Wrst,
    StDev,
    P95,
}

/// The field a letter selects, in either case.
pub open spec fn spec_from_char(c: char) -> Option<Field> {
    if c == 'L' || c == 'l' {
        Some(Field::Loss)
    } else if c == 'S' || c == 's' {
        Some(Field::Snt)
    } else if c == 'R' || c == 'r' {
        Some(Field::Recv)
    } else if c == 'D' || c == 'd' {
        Some(Field::Drop)
    } else if c == 'N' || c == 'n' {
        Some(Field::Last)
    } else if c == 'A' || c == 'a' {
        Some(Field::Avg)
    } else if c == 'B' || c == 'b' {
        Some(Field::Best)
    } else if c == 'W' || c == 'w' {
        Some(Field::Wrst)
    } else if c == 'V' || c == 'v' {
        Some(Field::StDev)
    } else if c == 'P' || c == 'p' {
        Some(Field::P95)
    } else {
        None
    }
}

/// Column header text.
pub open spec fn spec_header(f: Field) -> Seq<char> {
    match f {
        Field::Loss => "Loss%"@,
        Field::Snt => "Snt"@,
        Field::Recv => "Recv"@,
        Field::Drop => "Drop"@,
        Field::Last => "Last"@,
        Field::Avg => "Avg"@,
        Field::Best => "Best"@,
        Field::Wrst => "Wrst"@,
        Field::StDev => "StDev"@,
        Field::P95 => "p95"@,
    }
}

impl Field {
    pub fn from_char(c: char) -> (f: Option<Field>)
        ensures
            f == spec_from_char(c),
    {
        if c == 'L' || c == 'l' {
            Some(Field::Loss)
        } else if c == 'S' || c == 's' {
            Some(Field::Snt)
        } else if c == 'R' || c == 'r' {
            Some(Field::Recv)
        } else if c == 'D' || c == 'd' {
            Some(Field::Drop)
        } else if c == 'N' || c == 'n' {
            Some(Field::Last)
        } else if c == 'A' || c == 'a' {
            Some(Field::Avg)
        } else if c == 'B' || c == 'b' {
            Some(Field::Best)
        } else if c == 'W' || c == 'w' {
            Some(Field::Wrst)
        } else if c == 'V' || c == 'v' {
            Some(Field::StDev)
        } else if c == 'P' || c == 'p' {
            Some(Field::P95)
        } else {
            None
        }
    }

    pub fn header(self) -> (h: &'static str)
        ensures
            h@ == spec_header(self),
    {
        match self {
            Field::Loss => "Loss%",
            Field::Snt => "Snt",
            Field::Recv => "Recv",
            Field::Drop => "Drop",
            Field::Last => "Last",
            Field::Avg => "Avg",
            Field::Best => "Best",
            Field::Wrst => "Wrst",
            Field::StDev => "StDev",
            Field::P95 => "p95",
        }
    }

    /// Column width (characters) for both the live table and the text report.
    pub fn width(self) -> (w: u16)
        ensures
            w == match self {
                Field::Loss | Field::Snt | Field::Recv | Field::Drop => 6u16,
                _ => 7u16,
            },
    {
        match self {
            Field::Loss | Field::Snt | Field::Recv | Field::Drop => 6,
            _ => 7,
        }
    }

    pub fn is_loss(self) -> (b: bool)
        ensures
            b == (self == Field::Loss),
    {
        match self {
            Field::Loss => true,
            _ => false,
        }
    }
}

/// The default column set.
pub open spec fn default_fields() -> Seq<Field> {
    seq![Field::Loss, Field::Snt, Field::Last, Field::Avg, Field::Best, Field::Wrst, Field::StDev, Field::P95]
}

/// The default column set (the original fixed layout).
pub fn default() -> (v: Vec<Field>)
    ensures
        v@ == default_fields(),
{
    let v = vec![
        Field::Loss,
        Field::Snt,
        Field::Last,
        Field::Avg,
        Field::Best,
        Field::Wrst,
        Field::StDev,
        Field::P95,
    ];
    assert(v@ =~= default_fields());
    v
}

/// The fields the known letters of an order string select, in order.
pub open spec fn fields_of(s: Seq<char>) -> Seq<Field>
    decreases s.len(),
{
    if s.len() == 0 {
        Seq::empty()
    } else {
        fields_of(s.drop_last()) + match spec_from_char(s.last()) {
            Some(f) => seq![f],
            None => Seq::empty(),
        }
    }
}

/// Parse an order string like `LSNABWV`: unknown letters are ignored, and an
/// empty result falls back to [`default`].
pub fn parse_order(s: &str) -> (v: Vec<Field>)
    ensures
        v@ == if fields_of(s@).len() == 0 { default_fields() } else { fields_of(s@) },
{
    let cs = crate::text::chars_of(s);
    parse_order_chars(&cs)
}

/// [`parse_order`] on the characters of the order string.
pub fn parse_order_chars(cs: &Vec<char>) -> (v: Vec<Field>)
    ensures
        v@ == if fields_of(cs@).len() == 0 { default_fields() } else { fields_of(cs@) },
{
    let mut v: Vec<Field> = Vec::new();
    let mut i: usize = 0;
    while i < cs.len()
        invariant
            i <= cs@.len(),
            v@ == fields_of(cs@.take(i as int)),
        decreases cs@.len() - i,
    {
        if let Some(f) = Field::from_char(cs[i]) {
            v.push(f);
        }
        assert(cs@.take(i + 1).drop_last() =~= cs@.take(i as int));
        assert(v@ =~= fields_of(cs@.take(i + 1)));
        i = i + 1;
    }
    assert(cs@.take(cs@.len() as int) =~= cs@);
    if v.len() == 0 { default() } else { v }
}

} // verus!
