//! ICMP extensions (RFC 4884 multipart + RFC 4950 MPLS label stack) quoted in
//! an ICMP Time Exceeded / Destination Unreachable message.
use vstd::prelude::*;
use crate::bytes::{from_be16, from_be32, u16_from_be, u32_from_be};
use crate::model::MplsLabel;

verus! {

/// The label stack entry a 32-bit word encodes: 20-bit label, 3-bit traffic
/// class, bottom-of-stack bit, TTL.
pub open spec fn spec_label(w: u32) -> MplsLabel {
    MplsLabel {
        label: w >> 12u32,
        exp: ((w >> 9u32) & 7u32) as u8,
        bos: (w >> 8u32) & 1u32 == 1u32,
        ttl: (w & 0xffu32) as u8,
    }
}

/// The 32-bit word at `q` of `b`, big-endian.
pub open spec fn word_at(b: Seq<u8>, q: int) -> u32 {
    from_be32(b[q], b[q + 1], b[q + 2], b[q + 3])
}

/// The label stack entries in the 4-byte words that fit within `q .. end`.
pub open spec fn labels_in(b: Seq<u8>, q: int, end: int) -> Seq<MplsLabel>
    decreases end - q,
{
    if q + 4 <= end {
        seq![spec_label(word_at(b, q))] + labels_in(b, q + 4, end)
    } else {
        Seq::empty()
    }
}

/// The labels of every MPLS Label Stack object (class 1, c-type 1) among the
/// extension objects starting at `p`. A malformed object (length below 4 or
/// running past the end) ends the walk.
pub open spec fn objects_from(b: Seq<u8>, p: int) -> Seq<MplsLabel>
    decreases b.len() - p,
{
    if 0 <= p && p + 4 <= b.len() {
        let obj_len = from_be16(b[p], b[p + 1]) as int;
        if obj_len < 4 || p + obj_len > b.len() {
            Seq::empty()
        } else {
            (if b[p + 2] == 1 && b[p + 3] == 1 {
                labels_in(b, p + 4, p + obj_len)
            } else {
                Seq::empty()
            }) + objects_from(b, p + obj_len)
        }
    } else {
        Seq::empty()
    }
}

/// Where the extension structure starts: after the 8-byte ICMP header and the
/// original datagram, whose length byte 5 gives in 32-bit words (0 meaning
/// the legacy 128 bytes).
pub open spec fn ext_offset(msg: Seq<u8>) -> int {
    8 + if msg[5] > 0 { msg[5] as int * 4 } else { 128 }
}

/// The MPLS label stack of an ICMP message (starting at its type byte): empty
/// unless there is a version-2 extension header.
pub open spec fn spec_parse_mpls(msg: Seq<u8>) -> Seq<MplsLabel> {
    if msg.len() < 8 || ext_offset(msg) > msg.len() {
        Seq::empty()
    } else {
        let ext = msg.subrange(ext_offset(msg), msg.len() as int);
        if ext.len() < 4 || (ext[0] >> 4u8) != 2 {
            Seq::empty()
        } else {
            objects_from(ext, 4)
        }
    }
}

/// Extract the MPLS label stack from an ICMP message.
pub fn parse_mpls(msg: &[u8]) -> (out: Vec<MplsLabel>)
    ensures
        out@ == spec_parse_mpls(msg@),
{
    if msg.len() < 8 {
        return Vec::new();
    }
    let length_words = msg[5] as usize;
    let orig_len = if length_words > 0 { length_words * 4 } else { 128 };
    let ext_off = 8 + orig_len;
    if ext_off > msg.len() {
        return Vec::new();
    }
    let ext = &msg[ext_off..msg.len()];
    if ext.len() < 4 || (ext[0] >> 4u8) != 2 {
        return Vec::new();
    }
    let mut out: Vec<MplsLabel> = Vec::new();
    let mut p: usize = 4;
    while p <= ext.len() - 4
        invariant_except_break
            4 <= p <= ext@.len(),
            ext@.len() >= 4,
            out@ + objects_from(ext@, p as int) == objects_from(ext@, 4),
        ensures
            out@ == objects_from(ext@, 4),
        decreases ext@.len() - p,
    {
        let obj_len = u16_from_be(ext[p], ext[p + 1]) as usize;
        let class = ext[p + 2];
        let ctype = ext[p + 3];
        if obj_len < 4 || obj_len > ext.len() - p {
            assert(objects_from(ext@, p as int) =~= Seq::empty());
            assert(out@ + Seq::<MplsLabel>::empty() =~= out@);
            break;
        }
        let ghost before = out@;
        if class == 1 && ctype == 1 {
            let end = p + obj_len;
            let mut q = p + 4;
            while q <= end - 4
                invariant
                    end >= 4,
                    p + 4 <= q <= end,
                    end <= ext@.len(),
                    out@ + labels_in(ext@, q as int, end as int) == before + labels_in(
                        ext@,
                        (p + 4) as int,
                        end as int,
                    ),
                decreases end - q,
            {
                let w = u32_from_be(ext[q], ext[q + 1], ext[q + 2], ext[q + 3]);
                let lbl = MplsLabel {
                    label: w >> 12u32,
                    exp: ((w >> 9u32) & 7u32) as u8,
                    bos: (w >> 8u32) & 1u32 == 1u32,
                    ttl: (w & 0xffu32) as u8,
                };
                let ghost prev = out@;
                out.push(lbl);
                assert(labels_in(ext@, q as int, end as int) =~= seq![lbl] + labels_in(
                    ext@,
                    q + 4,
                    end as int,
                ));
                assert(prev + labels_in(ext@, q as int, end as int) =~= out@ + labels_in(
                    ext@,
                    q + 4,
                    end as int,
                ));
                q = q + 4;
            }
            assert(labels_in(ext@, q as int, end as int) =~= Seq::empty());
            assert(out@ =~= before + labels_in(ext@, (p + 4) as int, end as int));
        }
        let ghost here = if class == 1 && ctype == 1 {
            labels_in(ext@, (p + 4) as int, (p + obj_len) as int)
        } else {
            Seq::empty()
        };
        assert(out@ =~= before + here);
        assert(objects_from(ext@, p as int) =~= here + objects_from(ext@, (p + obj_len) as int));
        assert(before + objects_from(ext@, p as int) =~= out@ + objects_from(ext@, (p + obj_len) as int));
        p = p + obj_len;
    }
    proof {
        if !(p <= ext@.len() - 4) {
            assert(objects_from(ext@, p as int) =~= Seq::empty());
            assert(out@ + Seq::<MplsLabel>::empty() =~= out@);
        }
    }
    out
}

} // verus!
