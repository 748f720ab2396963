use vstd::prelude::*;

use crate::model::sentinel;

verus! {

/// A line-boundary character in loaded text: newline or carriage return,
/// either one alone counts.
pub open spec fn is_sep(c: char) -> bool {
    c == '\n' || c == '\r'
}

/// The document that loading text `s` produces: `s` split on the
/// separators, every piece (zero-length ones included) becoming a line
/// terminated with the sentinel. Defined over the last character: a
/// separator closes the last line and opens a fresh one; any other
/// character lands just before the last line's sentinel.
pub open spec fn parse_m(s: Seq<char>) -> Seq<Seq<char>>
    decreases s.len(),
{
    if s.len() == 0 {
        seq![seq![sentinel()]]
    } else {
        let pre = parse_m(s.drop_last());
        if is_sep(s.last()) {
            pre.push(seq![sentinel()])
        } else {
            pre.update(pre.len() - 1, pre.last().drop_last().push(s.last()).push(sentinel()))
        }
    }
}

/// The text that saving document `d` produces: each line minus its
/// trailing sentinel, the lines joined with `\n`, no newline after the
/// last line.
pub open spec fn serialize_m(d: Seq<Seq<char>>) -> Seq<char>
    decreases d.len(),
{
    if d.len() == 0 {
        Seq::empty()
    } else if d.len() == 1 {
        d[0].drop_last()
    } else {
        serialize_m(d.drop_last()).push('\n') + d.last().drop_last()
    }
}

/// Loading always yields a well-formed document: at least one line, every
/// line non-empty and sentinel-terminated, and no separator among the
/// content characters.
pub proof fn lemma_parse_wf(s: Seq<char>)
    ensures
        parse_m(s).len() >= 1,
        forall|i: int|
            0 <= i < parse_m(s).len() ==> #[trigger] parse_m(s)[i].len() >= 1
                && parse_m(s)[i].last() == sentinel(),
    decreases s.len(),
{
    if s.len() > 0 {
        lemma_parse_wf(s.drop_last());
    }
}

/// Saving then loading then saving again is the identity on the text:
/// for any text free of carriage returns, the document it loads to saves
/// back to the very same characters.
pub proof fn lemma_serialize_parse(s: Seq<char>)
    requires
        forall|i: int| 0 <= i < s.len() ==> s[i] != '\r',
    ensures
        serialize_m(parse_m(s)) == s,
    decreases s.len(),
{
    if s.len() == 0 {
        assert(serialize_m(parse_m(s)) =~= s);
    } else {
        let butlast = s.drop_last();
        let c = s.last();
        lemma_serialize_parse(butlast);
        lemma_parse_wf(butlast);
        let pre = parse_m(butlast);
        if is_sep(c) {
            let d = pre.push(seq![sentinel()]);
            assert(d.drop_last() =~= pre);
            assert(d.last().drop_last() =~= Seq::<char>::empty());
            assert(serialize_m(d) =~= butlast.push('\n'));
            assert(serialize_m(parse_m(s)) =~= s);
        } else {
            let newlast = pre.last().drop_last().push(c).push(sentinel());
            let d = pre.update(pre.len() - 1, newlast);
            assert(newlast.drop_last() =~= pre.last().drop_last().push(c));
            assert(s =~= butlast.push(c));
            if pre.len() == 1 {
                assert(serialize_m(d) == d[0].drop_last());
                assert(serialize_m(pre) == pre[0].drop_last());
                assert(serialize_m(d) =~= butlast.push(c));
                assert(serialize_m(parse_m(s)) =~= s);
            } else {
                assert(d.drop_last() =~= pre.drop_last());
                assert(serialize_m(d) == serialize_m(pre.drop_last()).push('\n')
                    + pre.last().drop_last().push(c));
                assert(serialize_m(pre) == serialize_m(pre.drop_last()).push('\n')
                    + pre.last().drop_last());
                assert(serialize_m(d) =~= butlast.push(c));
                assert(serialize_m(parse_m(s)) =~= s);
            }
        }
    }
}

/// The saved text of a document holds no carriage return when the
/// document's lines hold none: its characters are line characters and the
/// `\n` separators.
pub proof fn lemma_serialize_no_cr(d: Seq<Seq<char>>)
    requires
        forall|i: int| 0 <= i < d.len() ==> #[trigger] d[i].len() >= 1,
        forall|i: int, j: int|
            0 <= i < d.len() && 0 <= j < d[i].len() ==> #[trigger] d[i][j] != '\r',
    ensures
        forall|k: int| 0 <= k < serialize_m(d).len() ==> #[trigger] serialize_m(d)[k] != '\r',
    decreases d.len(),
{
    if d.len() == 1 {
        assert forall|k: int| 0 <= k < serialize_m(d).len() implies #[trigger] serialize_m(d)[k]
            != '\r' by {
            assert(serialize_m(d)[k] == d[0][k]);
        }
    } else if d.len() > 1 {
        lemma_serialize_no_cr(d.drop_last());
        let x = serialize_m(d.drop_last());
        assert forall|k: int| 0 <= k < serialize_m(d).len() implies #[trigger] serialize_m(d)[k]
            != '\r' by {
            if k < x.len() {
                assert(serialize_m(d)[k] == x[k]);
            } else if k == x.len() {
                assert(serialize_m(d)[k] == '\n');
            } else {
                assert(serialize_m(d)[k] == d[d.len() - 1][k - x.len() - 1]);
            }
        }
    }
}

/// Save/load round trip: loading a saved document and saving it again
/// produces the very same text, for any document free of carriage
/// returns.
pub proof fn lemma_save_load_roundtrip(d: Seq<Seq<char>>)
    requires
        forall|i: int| 0 <= i < d.len() ==> #[trigger] d[i].len() >= 1,
        forall|i: int, j: int|
            0 <= i < d.len() && 0 <= j < d[i].len() ==> #[trigger] d[i][j] != '\r',
    ensures
        serialize_m(parse_m(serialize_m(d))) == serialize_m(d),
{
    lemma_serialize_no_cr(d);
    lemma_serialize_parse(serialize_m(d));
}

/// The document an absent or empty file yields: a single line holding
/// only the sentinel.
pub fn empty_buffer() -> (d: Vec<Vec<char>>)
    ensures
        d.deep_view() == seq![seq![sentinel()]],
{
    let mut line: Vec<char> = Vec::new();
    line.push('\0');
    let mut d: Vec<Vec<char>> = Vec::new();
    d.push(line);
    proof {
        assert(d.deep_view() =~~= seq![seq![sentinel()]]);
    }
    d
}

/// Split loaded text into sentinel-terminated lines, exactly as
/// [`parse_m`] says: each run between separators, zero-length ones
/// included, becomes a line with the sentinel appended.
pub fn parse_text(text: &Vec<char>) -> (d: Vec<Vec<char>>)
    ensures
        d.deep_view() == parse_m(text@),
{
    let mut out: Vec<Vec<char>> = Vec::new();
    let mut cur: Vec<char> = Vec::new();
    let mut i: usize = 0;

    while i < text.len()
        invariant
            i <= text@.len(),
            out.deep_view().push(cur@.push(sentinel())) == parse_m(text@.take(i as int)),
        decreases text@.len() - i,
    {
        let ghost prefix = text@.take(i as int);
        let c = text[i];
        proof {
            assert(text@.take(i + 1).drop_last() =~= prefix);
            assert(text@.take(i + 1).last() == c);
        }
        if c == '\n' || c == '\r' {
            cur.push('\0');
            out.push(cur);
            cur = Vec::new();
            proof {
                assert(out.deep_view().push(cur@.push(sentinel())) =~~= parse_m(
                    text@.take(i + 1),
                ));
            }
        } else {
            let ghost pre = parse_m(prefix);
            let ghost cur0 = cur@;
            cur.push(c);
            proof {
                assert(pre.last() == cur0.push(sentinel()));
                assert(pre.last().drop_last() =~= cur0);
                assert(out.deep_view().push(cur@.push(sentinel())) =~~= parse_m(
                    text@.take(i + 1),
                ));
            }
        }
        i = i + 1;
    }
    proof {
        assert(text@.take(i as int) =~= text@);
    }
    cur.push('\0');
    out.push(cur);
    proof {
        assert(out.deep_view() =~~= parse_m(text@));
    }
    out
}

} // verus!
