//! The debugging text of frames and answers: what `{:#?}` printed for a
//! `ParsedFrame` and `{:?}` for a `ParseResult`.
use vstd::prelude::*;

use crate::parser::{push_char, FrameView, ResultView};

verus! {

/// The debug form of a string: the string in double quotes, its characters
/// escaped as `<str as Debug>::fmt` escapes them.
pub uninterp spec fn quoted(s: Seq<char>) -> Seq<char>;

/// `<String as Debug>::fmt`: gives the string in double quotes, with its
/// characters escaped; the result is named `quoted`.
#[verifier::external_body]
fn quote(s: &String) -> (q: String)
    ensures
        q@ == quoted(s@),
{
    format!("{:?}", s)
}

/// The character of a decimal digit.
pub open spec fn digit_char(d: nat) -> char {
    (d + 48) as char
}

/// A number written in decimal, as `Debug` writes an integer.
pub open spec fn decimal(n: nat) -> Seq<char>
    decreases n,
{
    if n < 10 {
        seq![digit_char(n)]
    } else {
        decimal(n / 10).push(digit_char(n % 10))
    }
}

/// An optional number, as a field of a pretty-printed struct.
pub open spec fn opt_number_text(o: Option<usize>) -> Seq<char> {
    match o {
        None => "None"@,
        Some(n) => "Some(\n        "@ + decimal(n as nat) + ",\n    )"@,
    }
}

/// `Some` of a pair of numbers, as a field of a pretty-printed struct.
pub open spec fn some_pair_text(a: nat, b: nat) -> Seq<char> {
    "Some(\n        (\n            "@ + decimal(a) + ",\n            "@ + decimal(b)
        + ",\n        ),\n    )"@
}

/// The entries of a list of strings, one line each, inside `Some` inside a
/// pretty-printed struct.
pub open spec fn list_items_text(items: Seq<Seq<char>>) -> Seq<char>
    decreases items.len(),
{
    if items.len() == 0 {
        Seq::empty()
    } else {
        list_items_text(items.drop_last()) + "            "@ + quoted(items.last()) + ",\n"@
    }
}

/// An optional list of strings, as a field of a pretty-printed struct.
pub open spec fn opt_list_text(o: Option<Seq<Seq<char>>>) -> Seq<char> {
    match o {
        None => "None"@,
        Some(items) => if items.len() == 0 {
            "Some(\n        [],\n    )"@
        } else {
            "Some(\n        [\n"@ + list_items_text(items) + "        ],\n    )"@
        },
    }
}

/// The pretty-printed debug text of a frame.
pub open spec fn frame_text(f: FrameView) -> Seq<char> {
    "ParsedFrame {\n    Header: "@ + decimal(f.header as nat) + ",\n    Data_size: "@
        + opt_number_text(f.data_size) + ",\n    Result_type: "@ + match f.result_type {
        None => "None"@,
        Some(p) => some_pair_text(p.0 as nat, p.1 as nat),
    } + ",\n    Data: "@ + match f.data {
        None => "None"@,
        Some(p) => some_pair_text(p.0 as nat, p.1 as nat),
    } + ",\n    Text: "@ + opt_list_text(f.text) + ",\n}"@
}

/// An optional number, as a field of a one-line struct.
pub open spec fn opt_number_line(o: Option<usize>) -> Seq<char> {
    match o {
        None => "None"@,
        Some(n) => "Some("@ + decimal(n as nat) + ")"@,
    }
}

/// `Some` of a pair of numbers, on one line.
pub open spec fn some_pair_line(a: nat, b: nat) -> Seq<char> {
    "Some(("@ + decimal(a) + ", "@ + decimal(b) + "))"@
}

/// The entries of a list of strings, separated by `, `.
pub open spec fn list_items_line(items: Seq<Seq<char>>) -> Seq<char>
    decreases items.len(),
{
    if items.len() == 0 {
        Seq::empty()
    } else if items.len() == 1 {
        quoted(items[0])
    } else {
        list_items_line(items.drop_last()) + ", "@ + quoted(items.last())
    }
}

/// An optional list of strings, on one line.
pub open spec fn opt_list_line(o: Option<Seq<Seq<char>>>) -> Seq<char> {
    match o {
        None => "None"@,
        Some(items) => "Some(["@ + list_items_line(items) + "])"@,
    }
}

/// The one-line debug text of a frame (as `{:?}` prints it).
pub open spec fn frame_line(f: FrameView) -> Seq<char> {
    "ParsedFrame { Header: "@ + decimal(f.header as nat) + ", Data_size: "@ + opt_number_line(
        f.data_size,
    ) + ", Result_type: "@ + match f.result_type {
        None => "None"@,
        Some(p) => some_pair_line(p.0 as nat, p.1 as nat),
    } + ", Data: "@ + match f.data {
        None => "None"@,
        Some(p) => some_pair_line(p.0 as nat, p.1 as nat),
    } + ", Text: "@ + opt_list_line(f.text) + " }"@
}

/// The debug text of an answer.
pub open spec fn result_text(r: ResultView) -> Seq<char> {
    match r {
        ResultView::Debug => "IGNORE FOR DEBUG"@,
        ResultView::DebugOk => "IGNORE FOR DEBUG BUT OK"@,
        ResultView::Frame(f) => "Frame("@ + frame_text(f) + ")"@,
        ResultView::IncompleteFrame(f) => "IncompleteFrame:"@ + frame_text(f),
        ResultView::ParseError(e) => "ParseError : "@ + e,
    }
}

/// Appends `n` written in decimal.
pub(crate) fn push_decimal(s: &mut String, n: usize)
    ensures
        final(s)@ == old(s)@ + decimal(n as nat),
{
    let mut low: Vec<char> = Vec::new();
    let mut m: usize = n;
    while m >= 10
        invariant
            decimal(n as nat) == decimal(m as nat) + low@,
        decreases m,
    {
        let c = ((m % 10) as u8 + 48) as char;
        assert(c == digit_char((m % 10) as nat));
        let ghost old_low = low@;
        low.insert(0, c);
        assert(decimal(m as nat) == decimal((m / 10) as nat).push(c));
        assert(decimal((m / 10) as nat) + low@ =~= decimal(m as nat) + old_low);
        m = m / 10;
    }
    let ghost start = s@;
    push_char(s, (m as u8 + 48) as char);
    let mut i: usize = 0;
    while i < low.len()
        invariant
            0 <= i <= low.len(),
            s@ == start + seq![digit_char(m as nat)] + low@.subrange(0, i as int),
        decreases low.len() - i,
    {
        push_char(s, low[i]);
        assert(low@.subrange(0, i + 1) =~= low@.subrange(0, i as int).push(low@[i as int]));
        i += 1;
    }
    assert(low@.subrange(0, low.len() as int) =~= low@);
    assert(decimal(m as nat) =~= seq![digit_char(m as nat)]);
    assert(s@ =~= start + decimal(n as nat));
}

/// Appends an optional number as a field of a pretty-printed struct.
pub(crate) fn push_opt_number(s: &mut String, o: Option<usize>)
    ensures
        final(s)@ == old(s)@ + opt_number_text(o),
{
    let ghost start = s@;
    match o {
        None => s.append("None"),
        Some(n) => {
            s.append("Some(\n        ");
            push_decimal(s, n);
            s.append(",\n    )");
        },
    }
    assert(s@ =~= start + opt_number_text(o));
}

/// Appends `Some` of a pair of numbers as a field of a pretty-printed struct.
pub(crate) fn push_some_pair(s: &mut String, a: usize, b: usize)
    ensures
        final(s)@ == old(s)@ + some_pair_text(a as nat, b as nat),
{
    let ghost start = s@;
    s.append("Some(\n        (\n            ");
    push_decimal(s, a);
    s.append(",\n            ");
    push_decimal(s, b);
    s.append(",\n        ),\n    )");
    assert(s@ =~= start + some_pair_text(a as nat, b as nat));
}

/// Appends an optional list of strings as a field of a pretty-printed
/// struct.
pub(crate) fn push_opt_list(s: &mut String, o: &Option<Vec<String>>)
    ensures
        final(s)@ == old(s)@ + opt_list_text(o.deep_view()),
{
    let ghost start = s@;
    match o {
        None => {
            s.append("None");
        },
        Some(items) => {
            if items.len() == 0 {
                s.append("Some(\n        [],\n    )");
            } else {
                s.append("Some(\n        [\n");
                let ghost mid = s@;
                let mut i: usize = 0;
                while i < items.len()
                    invariant
                        0 <= i <= items.len(),
                        s@ == mid + list_items_text(items.deep_view().subrange(0, i as int)),
                    decreases items.len() - i,
                {
                    let q = quote(&items[i]);
                    s.append("            ");
                    s.append(q.as_str());
                    s.append(",\n");
                    proof {
                        let next = items.deep_view().subrange(0, i + 1);
                        assert(next.drop_last() =~= items.deep_view().subrange(0, i as int));
                        assert(next.last() == items[i as int]@);
                        assert(s@ =~= mid + list_items_text(next));
                    }
                    i += 1;
                }
                assert(items.deep_view().subrange(0, items.len() as int) =~= items.deep_view());
                s.append("        ],\n    )");
            }
        },
    }
    assert(s@ =~= start + opt_list_text(o.deep_view()));
}

/// Appends an optional number as a field of a one-line struct.
pub(crate) fn push_opt_number_line(s: &mut String, o: Option<usize>)
    ensures
        final(s)@ == old(s)@ + opt_number_line(o),
{
    let ghost start = s@;
    match o {
        None => s.append("None"),
        Some(n) => {
            s.append("Some(");
            push_decimal(s, n);
            s.append(")");
        },
    }
    assert(s@ =~= start + opt_number_line(o));
}

/// Appends `Some` of a pair of numbers, on one line.
pub(crate) fn push_some_pair_line(s: &mut String, a: usize, b: usize)
    ensures
        final(s)@ == old(s)@ + some_pair_line(a as nat, b as nat),
{
    let ghost start = s@;
    s.append("Some((");
    push_decimal(s, a);
    s.append(", ");
    push_decimal(s, b);
    s.append("))");
    assert(s@ =~= start + some_pair_line(a as nat, b as nat));
}

/// Appends an optional list of strings, on one line.
pub(crate) fn push_opt_list_line(s: &mut String, o: &Option<Vec<String>>)
    ensures
        final(s)@ == old(s)@ + opt_list_line(o.deep_view()),
{
    let ghost start = s@;
    match o {
        None => {
            s.append("None");
        },
        Some(items) => {
            s.append("Some([");
            let ghost mid = s@;
            let mut i: usize = 0;
            while i < items.len()
                invariant
                    0 <= i <= items.len(),
                    s@ == mid + list_items_line(items.deep_view().subrange(0, i as int)),
                decreases items.len() - i,
            {
                if i > 0 {
                    s.append(", ");
                }
                let q = quote(&items[i]);
                s.append(q.as_str());
                proof {
                    let next = items.deep_view().subrange(0, i + 1);
                    assert(next.drop_last() =~= items.deep_view().subrange(0, i as int));
                    assert(next.last() == items[i as int]@);
                    if i == 0 {
                        assert(next[0] == items[0]@);
                        assert(items.deep_view().subrange(0, 0) =~= Seq::<Seq<char>>::empty());
                    }
                    assert(s@ =~= mid + list_items_line(next));
                }
                i += 1;
            }
            assert(items.deep_view().subrange(0, items.len() as int) =~= items.deep_view());
            s.append("])");
        },
    }
    assert(s@ =~= start + opt_list_line(o.deep_view()));
}

} // verus!
