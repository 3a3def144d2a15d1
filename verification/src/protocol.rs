//! Recognition of application protocols carried by transactions, from their
//! payload and from the data pushed by their input signature scripts.
use vstd::prelude::*;
use vstd::utf8::{encode_utf8, valid_utf8};

use crate::tally::TallyKey;
use crate::text::{bytes_contain, bytes_start_with, contains_bytes, is_valid_utf8, starts_with_bytes};

verus! {

/// Application protocols that the analytics count.
#[derive(Debug, Clone, Copy, PartialEq, Eq, Hash, Structural)]
pub enum TransactionProtocol {
    Krc,
    Kns,
    Kasia,
    Kasplex,
    KSocial,
    Igra,
}

impl View for TransactionProtocol {
    type V = TransactionProtocol;

    open spec fn view(&self) -> TransactionProtocol {
        *self
    }
}

impl TallyKey for TransactionProtocol {
    fn same_as(&self, other: &Self) -> (r: bool) {
        *self == *other
    }

    fn duplicate(&self) -> (r: Self) {
        *self
    }
}

/// The name under which a protocol is shown.
pub open spec fn protocol_label(p: TransactionProtocol) -> Seq<char> {
    match p {
        TransactionProtocol::Krc => "KRC-20"@,
        TransactionProtocol::Kns => "KNS"@,
        TransactionProtocol::Kasia => "Kasia"@,
        TransactionProtocol::Kasplex => "Kasplex"@,
        TransactionProtocol::KSocial => "KSocial"@,
        TransactionProtocol::Igra => "Igra"@,
    }
}

impl TransactionProtocol {
    pub fn label(&self) -> (r: &'static str)
        ensures
            r@ == protocol_label(*self),
    {
        match self {
            TransactionProtocol::Krc => "KRC-20",
            TransactionProtocol::Kns => "KNS",
            TransactionProtocol::Kasia => "Kasia",
            TransactionProtocol::Kasplex => "Kasplex",
            TransactionProtocol::KSocial => "KSocial",
            TransactionProtocol::Igra => "Igra",
        }
    }
}

/// UTF-8 text that contains the UTF-8 encoding of `marker`.
pub open spec fn text_contains(data: Seq<u8>, marker: &str) -> bool {
    valid_utf8(data) && bytes_contain(data, encode_utf8(marker@))
}

/// The protocol that a transaction payload announces: payloads that are
/// UTF-8 text are recognized by markers, others by an Igra leading byte.
pub open spec fn payload_protocol(p: Seq<u8>) -> Option<TransactionProtocol> {
    if p.len() == 0 {
        None
    } else if text_contains(p, "ciph_msg") {
        Some(TransactionProtocol::Kasia)
    } else if text_contains(p, "kasplex") {
        Some(TransactionProtocol::Kasplex)
    } else if valid_utf8(p) && bytes_start_with(p, encode_utf8("k:"@)) {
        Some(TransactionProtocol::KSocial)
    } else if 0x91 <= p[0] <= 0x97 {
        Some(TransactionProtocol::Igra)
    } else {
        None
    }
}

/// The protocol that one pushed data item reveals, if any.
pub open spec fn pushed_data_protocol(d: Seq<u8>) -> Option<TransactionProtocol> {
    if text_contains(d, "kasplex") || text_contains(d, "kspr") {
        Some(TransactionProtocol::Krc)
    } else if text_contains(d, "kns") {
        Some(TransactionProtocol::Kns)
    } else {
        None
    }
}

/// Walks the opcodes of script `s` from position `i`. Opcodes 0x01..=0x4b push
/// that many bytes, 0x4c (PUSHDATA1) and 0x4d (PUSHDATA2, little endian) push a
/// length given in the next one or two bytes; other opcodes are skipped. The
/// walk stops at a truncated length or push.
pub open spec fn scan_script_from(s: Seq<u8>, i: int) -> Option<TransactionProtocol>
    decreases s.len() - i, 1int,
{
    if i < 0 || i >= s.len() {
        None
    } else if 1 <= s[i] <= 0x4b {
        push_then_scan(s, i + 1, s[i] as int)
    } else if s[i] == 0x4c {
        if i + 1 >= s.len() {
            None
        } else {
            push_then_scan(s, i + 2, s[i + 1] as int)
        }
    } else if s[i] == 0x4d {
        if i + 2 >= s.len() {
            None
        } else {
            push_then_scan(s, i + 3, s[i + 1] as int + 256 * (s[i + 2] as int))
        }
    } else {
        scan_script_from(s, i + 1)
    }
}

/// Looks at the `n` bytes pushed at `start`, then continues the walk after them.
pub open spec fn push_then_scan(s: Seq<u8>, start: int, n: int) -> Option<TransactionProtocol>
    decreases s.len() - start + 1, 0int,
{
    if start < 0 || n < 0 || start + n > s.len() {
        None
    } else {
        match pushed_data_protocol(s.subrange(start, start + n)) {
            Some(p) => Some(p),
            None => scan_script_from(s, start + n),
        }
    }
}

/// The protocol revealed by the first input script that reveals one.
pub open spec fn scripts_protocol(scripts: Seq<Seq<u8>>) -> Option<TransactionProtocol>
    decreases scripts.len(),
{
    if scripts.len() == 0 {
        None
    } else {
        match scan_script_from(scripts[0], 0) {
            Some(p) => Some(p),
            None => scripts_protocol(scripts.drop_first()),
        }
    }
}

/// The protocol of a transaction: the payload decides first, then the input scripts.
pub open spec fn transaction_protocol(payload: Seq<u8>, scripts: Seq<Seq<u8>>) -> Option<
    TransactionProtocol,
> {
    match payload_protocol(payload) {
        Some(p) => Some(p),
        None => scripts_protocol(scripts),
    }
}

fn text_contains_exec(data: &[u8], marker: &str) -> (r: bool)
    ensures
        r == text_contains(data@, marker),
{
    is_valid_utf8(data) && contains_bytes(data, marker.as_bytes())
}

fn pushed_data_protocol_exec(d: &[u8]) -> (r: Option<TransactionProtocol>)
    ensures
        r == pushed_data_protocol(d@),
{
    if text_contains_exec(d, "kasplex") || text_contains_exec(d, "kspr") {
        Some(TransactionProtocol::Krc)
    } else if text_contains_exec(d, "kns") {
        Some(TransactionProtocol::Kns)
    } else {
        None
    }
}

/// Detects the protocol of a transaction from its payload and the signature
/// scripts of its inputs; `None` for an ordinary transaction.
pub fn detect_protocol(payload: &[u8], input_scripts: &[&[u8]]) -> (r: Option<TransactionProtocol>)
    ensures
        r == transaction_protocol(payload@, input_scripts@.map_values(|s: &[u8]| s@)),
{
    if payload.len() > 0 {
        if is_valid_utf8(payload) {
            if contains_bytes(payload, "ciph_msg".as_bytes()) {
                return Some(TransactionProtocol::Kasia);
            }
            if contains_bytes(payload, "kasplex".as_bytes()) {
                return Some(TransactionProtocol::Kasplex);
            }
            if starts_with_bytes(payload, "k:".as_bytes()) {
                return Some(TransactionProtocol::KSocial);
            }
        }
        if 0x91 <= payload[0] && payload[0] <= 0x97 {
            return Some(TransactionProtocol::Igra);
        }
    }
    let ghost all = input_scripts@.map_values(|s: &[u8]| s@);
    proof {
        assert(all.skip(0) =~= all);
    }
    let mut i: usize = 0;
    while i < input_scripts.len()
        invariant
            i <= input_scripts@.len(),
            all == input_scripts@.map_values(|s: &[u8]| s@),
            payload_protocol(payload@) is None,
            scripts_protocol(all.skip(i as int)) == scripts_protocol(all),
        decreases input_scripts@.len() - i,
    {
        let found = scan_script_for_protocol(input_scripts[i]);
        proof {
            assert(all.skip(i as int).drop_first() =~= all.skip(i + 1));
            assert(all.skip(i as int)[0] == input_scripts@[i as int]@);
        }
        if found.is_some() {
            return found;
        }
        i = i + 1;
    }
    proof {
        assert(all.skip(i as int).len() == 0);
    }
    None
}

/// Walks the opcodes of a signature script looking for pushed protocol markers.
fn scan_script_for_protocol(script: &[u8]) -> (r: Option<TransactionProtocol>)
    ensures
        r == scan_script_from(script@, 0),
{
    let len = script.len();
    let mut i: usize = 0;
    while i < len
        invariant
            len == script@.len(),
            i <= len,
            scan_script_from(script@, i as int) == scan_script_from(script@, 0),
        decreases len - i,
    {
        let op = script[i];
        let start: usize;
        let push_len: usize;
        if 1 <= op && op <= 0x4b {
            start = i + 1;
            push_len = op as usize;
        } else if op == 0x4c {
            if len - i <= 1 {
                return None;
            }
            start = i + 2;
            push_len = script[i + 1] as usize;
        } else if op == 0x4d {
            if len - i <= 2 {
                return None;
            }
            start = i + 3;
            push_len = script[i + 1] as usize + 256 * (script[i + 2] as usize);
        } else {
            i = i + 1;
            continue;
        }
        proof {
            assert(scan_script_from(script@, i as int) == push_then_scan(
                script@,
                start as int,
                push_len as int,
            ));
        }
        if push_len > len - start {
            return None;
        }
        let data = &script[start..start + push_len];
        let found = pushed_data_protocol_exec(data);
        proof {
            assert(data@ == script@.subrange(start as int, start + push_len));
        }
        if found.is_some() {
            return found;
        }
        i = start + push_len;
    }
    None
}

/// Walking `p + s` from a position inside `s` is walking `s` alone.
proof fn lemma_scan_shift(p: Seq<u8>, s: Seq<u8>, i: int)
    requires
        0 <= i,
    ensures
        scan_script_from(p + s, p.len() + i) == scan_script_from(s, i),
    decreases s.len() - i, 1int,
{
    let ps = p + s;
    let o = p.len() as int;
    if i >= s.len() {
    } else {
        assert(ps[o + i] == s[i]);
        if 1 <= s[i] <= 0x4b {
            lemma_push_shift(p, s, i + 1, s[i] as int);
        } else if s[i] == 0x4c {
            if i + 1 < s.len() {
                assert(ps[o + i + 1] == s[i + 1]);
                lemma_push_shift(p, s, i + 2, s[i + 1] as int);
            }
        } else if s[i] == 0x4d {
            if i + 2 < s.len() {
                assert(ps[o + i + 1] == s[i + 1]);
                assert(ps[o + i + 2] == s[i + 2]);
                lemma_push_shift(p, s, i + 3, s[i + 1] as int + 256 * (s[i + 2] as int));
            }
        } else {
            lemma_scan_shift(p, s, i + 1);
        }
    }
}

proof fn lemma_push_shift(p: Seq<u8>, s: Seq<u8>, start: int, n: int)
    requires
        0 < start,
    ensures
        push_then_scan(p + s, p.len() + start, n) == push_then_scan(s, start, n),
    decreases s.len() - start + 1, 0int,
{
    let ps = p + s;
    let o = p.len() as int;
    if n < 0 || start + n > s.len() {
    } else {
        assert(ps.subrange(o + start, o + start + n) =~= s.subrange(start, start + n));
        lemma_scan_shift(p, s, start + n);
    }
}

/// A pushed data item (opcodes 0x01..=0x4b) whose bytes are no UTF-8 text
/// naming "kasplex", "kspr" or "kns" reveals nothing, and the walk goes on to
/// the rest of the script: a signature script that starts with such a push
/// reveals what the rest reveals.
pub proof fn law_scan_skips_silent_push(d: Seq<u8>, rest: Seq<u8>)
    requires
        1 <= d.len() <= 0x4b,
        !text_contains(d, "kasplex"),
        !text_contains(d, "kspr"),
        !text_contains(d, "kns"),
    ensures
        transaction_protocol(Seq::empty(), seq![seq![d.len() as u8] + d + rest]) == transaction_protocol(
            Seq::empty(),
            seq![rest],
        ),
{
    let pre = seq![d.len() as u8] + d;
    let s = pre + rest;
    assert(seq![d.len() as u8] + d + rest == s);
    assert(s[0] == d.len() as u8);
    assert(s.subrange(1, 1 + d.len() as int) =~= d);
    lemma_scan_shift(pre, rest, 0);
    assert(pre.len() + 0 == 1 + d.len());
    assert(pushed_data_protocol(d) is None);
    assert(scan_script_from(s, 0) == push_then_scan(s, 1, d.len() as int));
    assert(push_then_scan(s, 1, d.len() as int) == scan_script_from(s, 1 + d.len() as int));
    assert(scan_script_from(s, 0) == scan_script_from(rest, 0));
    lemma_single_script(s);
    lemma_single_script(rest);
}

/// A transaction with no payload and one input script reveals what that
/// script reveals.
proof fn lemma_single_script(s: Seq<u8>)
    ensures
        transaction_protocol(Seq::empty(), seq![s]) == scan_script_from(s, 0),
{
    let one = seq![s];
    assert(one.drop_first() =~= Seq::<Seq<u8>>::empty());
    assert(scripts_protocol(Seq::<Seq<u8>>::empty()) is None);
    assert(one[0] == s);
}

/// A pushed data item (opcodes 0x01..=0x4b) of UTF-8 text naming "kasplex"
/// or "kspr" marks a KRC-20 transaction, and one naming "kns" (but neither
/// of those) a KNS transaction, whatever follows in the script.
pub proof fn law_scan_finds_marker_push(d: Seq<u8>, rest: Seq<u8>)
    requires
        1 <= d.len() <= 0x4b,
    ensures
        text_contains(d, "kasplex") || text_contains(d, "kspr") ==> transaction_protocol(
            Seq::empty(),
            seq![seq![d.len() as u8] + d + rest],
        ) == Some(TransactionProtocol::Krc),
        !text_contains(d, "kasplex") && !text_contains(d, "kspr") && text_contains(d, "kns")
            ==> transaction_protocol(Seq::empty(), seq![seq![d.len() as u8] + d + rest]) == Some(
            TransactionProtocol::Kns,
        ),
{
    let s = seq![d.len() as u8] + d + rest;
    assert(s[0] == d.len() as u8);
    assert(s.subrange(1, 1 + d.len() as int) =~= d);
    assert(scan_script_from(s, 0) == push_then_scan(s, 1, d.len() as int));
    lemma_single_script(s);
}

/// An opcode that pushes nothing (0x00, or 0x4e and above) is stepped over:
/// the script reveals what the rest after it reveals.
pub proof fn law_scan_steps_over_other_opcodes(op: u8, rest: Seq<u8>)
    requires
        op == 0 || op > 0x4d,
    ensures
        transaction_protocol(Seq::empty(), seq![seq![op] + rest]) == transaction_protocol(
            Seq::empty(),
            seq![rest],
        ),
{
    let pre = seq![op];
    let s = pre + rest;
    assert(s[0] == op);
    lemma_scan_shift(pre, rest, 0);
    assert(scan_script_from(s, 0) == scan_script_from(s, 1));
    lemma_single_script(s);
    lemma_single_script(rest);
}

/// A PUSHDATA1 item (0x4c, then its length byte) is looked at like a short
/// push: a marker in it decides, a silent one is passed over.
pub proof fn law_scan_reads_pushdata1(d: Seq<u8>, rest: Seq<u8>)
    requires
        d.len() <= 0xff,
    ensures
        text_contains(d, "kasplex") || text_contains(d, "kspr") ==> transaction_protocol(
            Seq::empty(),
            seq![seq![0x4cu8, d.len() as u8] + d + rest],
        ) == Some(TransactionProtocol::Krc),
        !text_contains(d, "kasplex") && !text_contains(d, "kspr") && !text_contains(d, "kns")
            ==> transaction_protocol(Seq::empty(), seq![seq![0x4cu8, d.len() as u8] + d + rest])
            == transaction_protocol(Seq::empty(), seq![rest]),
{
    let pre = seq![0x4cu8, d.len() as u8] + d;
    let s = pre + rest;
    assert(seq![0x4cu8, d.len() as u8] + d + rest == s);
    assert(s[0] == 0x4cu8);
    assert(s[1] == d.len() as u8);
    assert(s.subrange(2, 2 + d.len() as int) =~= d);
    assert(scan_script_from(s, 0) == push_then_scan(s, 2, d.len() as int));
    lemma_scan_shift(pre, rest, 0);
    assert(pre.len() + 0 == 2 + d.len());
    assert(push_then_scan(s, 2, d.len() as int) == match pushed_data_protocol(d) {
        Some(p) => Some(p),
        None => scan_script_from(s, 2 + d.len() as int),
    });
    lemma_single_script(s);
    lemma_single_script(rest);
}

} // verus!
