//! What a fresh parser answers for a whole frame of each method, stated in
//! terms of the frame's parts.
use vstd::prelude::*;

use crate::grammar::{caller_ack_scan, name_list_spec, parse_spec};
use crate::parser::{FrameView, ParserState, ResultView};
use crate::protocol_defs::methods::{
    CALL, CALLRESP, REG_CALLER, REG_CALLER_ACK, REG_SERVICE, REG_SERVICE_ACK,
};
use crate::protocol_defs::{CR, END, ETX, START};
use crate::wire::{all_text, is_delim, is_first_delim, lemma_first_delim_is, parse_usize, text_of};

verus! {

/// A `REG_SERVICE_ACK` frame is whole once the byte after its two-byte id
/// has arrived. It answers `Frame` with the result bytes, whatever they say,
/// and the bounds of the id, where that byte is `END`, and `ParseError`
/// where it is not.
pub proof fn law_service_ack_frame(a: u8, b: u8, x: u8, y: u8, z: u8, rest: Seq<u8>)
    ensures
        ({
            let d = seq![START, REG_SERVICE_ACK, a, b, x, y, z] + rest;
            if z == END {
                parse_spec(ParserState::fresh(), d) matches Some((_, ResultView::Frame(f))) && {
                    &&& f.header == REG_SERVICE_ACK
                    &&& f.result_type == Some((a, b))
                    &&& f.data == Some((4usize, 5usize))
                    &&& f.data_size == Some(1usize)
                    &&& f.text is None
                }
            } else {
                parse_spec(ParserState::fresh(), d) matches Some((_, ResultView::ParseError(e)))
                    && e == "Incorrectly parsed REG_SERVICE_ACK"@
            }
        }),
{
    let d = seq![START, REG_SERVICE_ACK, a, b, x, y, z] + rest;
    let v = d.subrange(2, d.len() as int);
    assert(v[0] == a && v[1] == b && v[4] == z);
}

/// A `REG_SERVICE` frame whose name is made of name bytes (letters, digits
/// and raw values `0..=9`, `ETX` among them) and ended by `CR` answers
/// `Frame` with that whole name as its one line of text: only `CR` ends the
/// name.
pub proof fn law_service_name_frame(name: Seq<u8>, rest: Seq<u8>)
    requires
        all_text(name),
    ensures
        ({
            let d = seq![START, REG_SERVICE] + name + seq![CR] + rest;
            parse_spec(ParserState::fresh(), d) matches Some((_, ResultView::Frame(f))) && {
                &&& f.header == REG_SERVICE
                &&& f.text == Some(seq![text_of(name)])
                &&& f.data is None
                &&& f.result_type is None
            }
        }),
{
    let d = seq![START, REG_SERVICE] + name + seq![CR] + rest;
    let t = d.subrange(2, d.len() as int);
    let p = name.len() as int;
    assert(t[p] == CR);
    assert forall|j: int| 0 <= j < p implies !is_delim(#[trigger] t[j], false) by {
        assert(t[j] == name[j]);
    }
    assert(is_first_delim(t, p, false));
    lemma_first_delim_is(t, p, false);
    assert(d.subrange(2, 2 + p) =~= name);
}

/// A `CALL` or `CALLRESP` frame whose length field is the decimal text of
/// `n`, followed by `CR`, `n` payload bytes and `END`, answers `Frame` with
/// the status bytes, size `n`, and the bounds of the payload: from just after
/// the length's `CR` to the `END`.
pub proof fn law_call_frame(
    h: u8,
    a: u8,
    b: u8,
    digits: Seq<u8>,
    payload: Seq<u8>,
    rest: Seq<u8>,
)
    requires
        h == CALL || h == CALLRESP,
        all_text(digits),
        parse_usize(text_of(digits)) == Some(payload.len() as usize),
        6 + digits.len() + payload.len() + rest.len() <= usize::MAX,
    ensures
        ({
            let d = seq![START, h, a, b] + digits + seq![CR] + payload + seq![END] + rest;
            let start = 5 + digits.len();
            parse_spec(ParserState::fresh(), d) matches Some((_, ResultView::Frame(f))) && {
                &&& f.header == h
                &&& f.result_type == Some((a, b))
                &&& f.data_size == Some(payload.len() as usize)
                &&& f.data == Some((start as usize, (start + payload.len()) as usize))
                &&& f.text is None
            }
        }),
{
    let d = seq![START, h, a, b] + digits + seq![CR] + payload + seq![END] + rest;
    let p = digits.len() as int;
    let n = payload.len() as int;
    let v = d.subrange(2, d.len() as int);
    assert(v[0] == a && v[1] == b);
    let t = d.subrange(4, d.len() as int);
    assert(t[p] == CR);
    assert forall|j: int| 0 <= j < p implies !is_delim(#[trigger] t[j], false) by {
        assert(t[j] == digits[j]);
    }
    assert(is_first_delim(t, p, false));
    lemma_first_delim_is(t, p, false);
    assert(d.subrange(4, 4 + p) =~= digits);
    assert(d[5 + p + n] == END);
}

/// A name of a name list: name bytes, none of them `ETX`.
pub open spec fn is_list_name(n: Seq<u8>) -> bool {
    all_text(n) && forall|j: int| 0 <= j < n.len() ==> #[trigger] n[j] != ETX
}

/// Names written one after the other, separated by `ETX`.
pub open spec fn etx_joined(names: Seq<Seq<u8>>) -> Seq<u8>
    decreases names.len(),
{
    if names.len() == 0 {
        Seq::empty()
    } else if names.len() == 1 {
        names[0]
    } else {
        names[0] + seq![ETX] + etx_joined(names.drop_first())
    }
}

proof fn lemma_name_list_run(
    s: ParserState,
    d: Seq<u8>,
    pos: int,
    acc: Seq<Seq<char>>,
    names: Seq<Seq<u8>>,
)
    requires
        names.len() >= 1,
        forall|i: int| 0 <= i < names.len() ==> is_list_name(#[trigger] names[i]),
        0 <= pos,
        pos + etx_joined(names).len() < d.len(),
        d.subrange(pos, pos + etx_joined(names).len()) == etx_joined(names),
        d[pos + etx_joined(names).len()] == CR,
    ensures
        name_list_spec(s, d, pos, acc) == Some(
            (
                ParserState {
                    parse_cursor: Some((pos + etx_joined(names).len() + 1) as usize),
                    ..s
                },
                ResultView::Frame(
                    FrameView::all_raw(
                        REG_CALLER,
                        None,
                        None,
                        Some(acc + names.map_values(|n: Seq<u8>| text_of(n))),
                    ),
                ),
            ),
        ),
    decreases names.len(),
{
    let n0 = names[0];
    let p = n0.len() as int;
    let big = etx_joined(names);
    let t = d.subrange(pos, d.len() as int);
    assert(is_list_name(n0));
    assert forall|j: int| 0 <= j < p implies t[j] == n0[j] by {
        assert(t[j] == d.subrange(pos, pos + big.len())[j]);
        assert(big[j] == n0[j]);
    }
    assert forall|j: int| 0 <= j < p implies !is_delim(#[trigger] t[j], true) by {
        assert(t[j] == n0[j]);
    }
    if names.len() == 1 {
        assert(t[p] == CR);
    } else {
        assert(big[p] == ETX);
        assert(t[p] == d.subrange(pos, pos + big.len())[p]);
        assert(t[p] == ETX);
    }
    assert(is_first_delim(t, p, true));
    lemma_first_delim_is(t, p, true);
    assert(d.subrange(pos, pos + p) =~= n0) by {
        assert forall|j: int| 0 <= j < p implies d.subrange(pos, pos + p)[j] == n0[j] by {
            assert(d.subrange(pos, pos + p)[j] == t[j]);
        }
    }
    let acc2 = acc.push(text_of(n0));
    if names.len() == 1 {
        assert(acc2 =~= acc + names.map_values(|n: Seq<u8>| text_of(n)));
    } else {
        let more = names.drop_first();
        let small = etx_joined(more);
        assert(big =~= n0 + seq![ETX] + small);
        assert forall|i: int| 0 <= i < more.len() implies is_list_name(#[trigger] more[i]) by {
            assert(more[i] == names[i + 1]);
        }
        assert(d.subrange(pos + p + 1, pos + p + 1 + small.len()) =~= small) by {
            assert forall|j: int| 0 <= j < small.len() implies d.subrange(
                pos + p + 1,
                pos + p + 1 + small.len(),
            )[j] == small[j] by {
                assert(d.subrange(pos, pos + big.len())[p + 1 + j] == big[p + 1 + j]);
            }
        }
        lemma_name_list_run(s, d, pos + p + 1, acc2, more);
        assert(acc2 + more.map_values(|n: Seq<u8>| text_of(n)) =~= acc + names.map_values(
            |n: Seq<u8>| text_of(n),
        ));
    }
}

/// A `REG_CALLER` frame made of one or more names, separated by `ETX` and
/// the last ended by `CR`, answers `Frame` with the list of those names, in
/// order, as its text.
pub proof fn law_name_list_frame(names: Seq<Seq<u8>>, rest: Seq<u8>)
    requires
        names.len() >= 1,
        forall|i: int| 0 <= i < names.len() ==> is_list_name(#[trigger] names[i]),
    ensures
        ({
            let d = seq![START, REG_CALLER] + etx_joined(names) + seq![CR] + rest;
            parse_spec(ParserState::fresh(), d) matches Some((_, ResultView::Frame(f))) && {
                &&& f.header == REG_CALLER
                &&& f.text == Some(names.map_values(|n: Seq<u8>| text_of(n)))
                &&& f.data is None
                &&& f.result_type is None
            }
        }),
{
    let j = etx_joined(names);
    let d = seq![START, REG_CALLER] + j + seq![CR] + rest;
    assert(d.subrange(2, 2 + j.len() as int) =~= j);
    assert(d[2 + j.len() as int] == CR);
    let s = ParserState { header_type: Some(REG_CALLER), parse_cursor: Some(2), ..ParserState::fresh() };
    lemma_name_list_run(s, d, 2, seq![], names);
    assert(Seq::<Seq<char>>::empty() + names.map_values(|n: Seq<u8>| text_of(n)) =~= names.map_values(
        |n: Seq<u8>| text_of(n),
    ));
}

/// No id pair of `ids` (at even offsets) is the pair `0xFF 0xFF`.
pub open spec fn no_end_pair(ids: Seq<u8>) -> bool {
    forall|k: int|
        0 <= k && k + 1 < ids.len() && k % 2 == 0 ==> !(#[trigger] ids[k] == 0xFF && ids[k + 1]
            == 0xFF)
}

proof fn lemma_ack_scan_run(c: int, v: Seq<u8>, ids: Seq<u8>, i: int)
    requires
        ids.len() % 2 == 0,
        no_end_pair(ids),
        v.len() >= ids.len() + 5,
        forall|k: int| 0 <= k < ids.len() ==> v[k + 2] == #[trigger] ids[k],
        2 <= i <= ids.len() + 2,
        (i - 2) % 2 == 0,
    ensures
        caller_ack_scan(c, v, i) == caller_ack_scan(c, v, ids.len() as int + 2),
    decreases ids.len() + 2 - i,
{
    if i < ids.len() + 2 {
        let k = i - 2;
        assert(v[i] == ids[k] && v[i + 1] == ids[k + 1]);
        assert(!(ids[k] == 0xFF && ids[k + 1] == 0xFF));
        lemma_ack_scan_run(c, v, ids, i + 2);
    }
}

/// A `REG_CALLER_ACK` frame with any two result bytes, then one or more id
/// pairs, then `0xFF 0xFF` and `CR`, answers `Frame` with those result bytes,
/// whatever they say, and bounds that start at the first id.
pub proof fn law_caller_ack_frame(a: u8, b: u8, ids: Seq<u8>, rest: Seq<u8>)
    requires
        ids.len() >= 2,
        ids.len() % 2 == 0,
        no_end_pair(ids),
        7 + ids.len() + rest.len() <= usize::MAX,
    ensures
        ({
            let d = seq![START, REG_CALLER_ACK, a, b] + ids + seq![0xFFu8, 0xFFu8, CR] + rest;
            parse_spec(ParserState::fresh(), d) matches Some((_, ResultView::Frame(f))) && {
                &&& f.header == REG_CALLER_ACK
                &&& f.result_type == Some((a, b))
                &&& f.data == Some((4usize, (3 + ids.len()) as usize))
                &&& f.text is None
            }
        }),
{
    let d = seq![START, REG_CALLER_ACK, a, b] + ids + seq![0xFFu8, 0xFFu8, CR] + rest;
    let v = d.subrange(2, d.len() as int);
    let e = ids.len() as int + 2;
    assert(v[0] == a && v[1] == b);
    assert forall|k: int| 0 <= k < ids.len() implies v[k + 2] == #[trigger] ids[k] by {
        assert(v[k + 2] == d[k + 4]);
    }
    assert(v[e] == 0xFF && v[e + 1] == 0xFF && v[e + 2] == CR);
    lemma_ack_scan_run(2, v, ids, 2);
}

/// Once a `CR` follows the method byte of a `REG_CALLER` frame, a fresh
/// parser answers it `Frame`, never `IncompleteFrame`: the list is whole at
/// the first `CR`.
pub proof fn law_name_list_whole_at_cr(d: Seq<u8>, q: int)
    requires
        d.len() >= 2,
        d[0] == START,
        d[1] == REG_CALLER,
        2 <= q < d.len(),
        d[q] == CR,
        parse_spec(ParserState::fresh(), d) is Some,
    ensures
        parse_spec(ParserState::fresh(), d) matches Some((_, r)) && r is Frame,
{
    let s = ParserState { header_type: Some(REG_CALLER), parse_cursor: Some(2), ..ParserState::fresh() };
    lemma_name_list_whole(s, d, 2, seq![], q);
}

proof fn lemma_first_delim_some(t: Seq<u8>, q: int, with_etx: bool)
    requires
        0 <= q < t.len(),
        is_delim(t[q], with_etx),
    ensures
        crate::wire::first_delim(t, with_etx) matches Some(p) && p <= q,
    decreases q,
{
    if exists|j: int| 0 <= j < q && is_delim(#[trigger] t[j], with_etx) {
        let j = choose|j: int| 0 <= j < q && is_delim(#[trigger] t[j], with_etx);
        lemma_first_delim_some(t, j, with_etx);
    } else {
        assert(is_first_delim(t, q, with_etx));
        lemma_first_delim_is(t, q, with_etx);
    }
}

proof fn lemma_name_list_whole(s: ParserState, d: Seq<u8>, pos: int, acc: Seq<Seq<char>>, q: int)
    requires
        0 <= pos <= q < d.len(),
        d[q] == CR,
        name_list_spec(s, d, pos, acc) is Some,
    ensures
        name_list_spec(s, d, pos, acc) matches Some((_, r)) && r is Frame,
    decreases d.len() - pos,
{
    let t = d.subrange(pos, d.len() as int);
    assert(t[q - pos] == CR);
    lemma_first_delim_some(t, q - pos, true);
    let p = crate::wire::first_delim(t, true)->0;
    assert(is_first_delim(t, p, true));
    if d[pos + p] == ETX {
        assert(t[p] == d[pos + p]);
        lemma_name_list_whole(s, d, pos + p + 1, acc.push(text_of(d.subrange(pos, pos + p))), q);
    }
}

} // verus!
