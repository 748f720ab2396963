use vstd::prelude::*;

use crate::model::{
    delete_char_m, insert_char_m, insert_nl_m, join_line_m, move_right_m, BufModel,
};

verus! {

/// Every edit operation preserves well-formedness. In particular a
/// well-formed document holds at least one line, so after any sequence of
/// edits the document is still non-empty.
pub proof fn lemma_edits_preserve_wf(m: BufModel, c: char)
    requires
        m.wf(),
    ensures
        insert_char_m(m, c).wf(),
        delete_char_m(m).wf(),
        insert_nl_m(m).wf(),
        join_line_m(m).wf(),
        insert_char_m(m, c).data.len() >= 1,
        delete_char_m(m).data.len() >= 1,
        insert_nl_m(m).data.len() >= 1,
        join_line_m(m).data.len() >= 1,
{
    let line = m.cur_line();
    assert(line.insert(m.col, c).last() == line.last());
    if m.col > 0 {
        assert(line.remove(m.col - 1).last() == line.last());
        assert(line.remove(m.col - 1).len() == line.len() - 1);
    }
    assert(line.skip(m.col).last() == line.last());
    assert(insert_nl_m(m).wf());
    if m.row > 0 {
        let above = m.data[m.row - 1].drop_last();
        assert((above + line).last() == line.last());
        assert(join_line_m(m).wf());
    }
}

/// One edit operation, as handed to the buffer by the event loop.
pub enum EditOp {
    Insert(char),
    Delete,
    InsertNl,
    JoinLine,
}

/// The state an edit operation leaves the buffer in.
pub open spec fn apply_edit_m(m: BufModel, e: EditOp) -> BufModel {
    match e {
        EditOp::Insert(c) => insert_char_m(m, c),
        EditOp::Delete => delete_char_m(m),
        EditOp::InsertNl => insert_nl_m(m),
        EditOp::JoinLine => join_line_m(m),
    }
}

/// The state a whole sequence of edit operations leaves the buffer in,
/// applied left to right.
pub open spec fn apply_edits_m(m: BufModel, es: Seq<EditOp>) -> BufModel
    decreases es.len(),
{
    if es.len() == 0 {
        m
    } else {
        apply_edit_m(apply_edits_m(m, es.drop_last()), es.last())
    }
}

/// After any sequence of edit operations a well-formed buffer is still
/// well formed; in particular its document still holds at least one line.
pub proof fn lemma_edit_sequence_preserves_wf(m: BufModel, es: Seq<EditOp>)
    requires
        m.wf(),
    ensures
        apply_edits_m(m, es).wf(),
        apply_edits_m(m, es).data.len() >= 1,
    decreases es.len(),
{
    if es.len() > 0 {
        lemma_edit_sequence_preserves_wf(m, es.drop_last());
        let prev = apply_edits_m(m, es.drop_last());
        match es.last() {
            EditOp::Insert(c) => lemma_edits_preserve_wf(prev, c),
            _ => lemma_edits_preserve_wf(prev, ' '),
        }
    }
}

/// Splitting a line and immediately joining it back is the identity:
/// `insert_nl` followed by `join_line` restores the document, the cursor
/// position and the scroll offsets, for any valid split column.
pub proof fn lemma_insert_nl_join_roundtrip(m: BufModel)
    requires
        m.wf(),
    ensures
        join_line_m(insert_nl_m(m)) == m,
{
    let m2 = insert_nl_m(m);
    let above = m2.data[m2.row - 1].drop_last();
    assert(above =~= m.cur_line().take(m.col));
    assert(above + m2.data[m2.row] =~= m.cur_line());
    assert(join_line_m(m2).data =~= m.data);
    assert(join_line_m(m2) == m);
}

/// Sum of all line lengths of a document, sentinels included: the number
/// of distinct cursor positions it offers.
pub open spec fn doc_len(d: Seq<Seq<char>>) -> int
    decreases d.len(),
{
    if d.len() == 0 {
        0
    } else {
        doc_len(d.drop_last()) + d.last().len()
    }
}

/// The cursor's linear position: the lengths of all lines above it plus
/// its column.
pub open spec fn cursor_pos(m: BufModel) -> int {
    doc_len(m.data.take(m.row)) + m.col
}

/// The cursor after `n` applications of `move_right`.
pub open spec fn iter_move_right(m: BufModel, n: nat) -> BufModel
    decreases n,
{
    if n == 0 {
        m
    } else {
        move_right_m(iter_move_right(m, (n - 1) as nat))
    }
}

proof fn lemma_doc_len_nonneg(d: Seq<Seq<char>>)
    ensures
        doc_len(d) >= 0,
    decreases d.len(),
{
    if d.len() > 0 {
        lemma_doc_len_nonneg(d.drop_last());
    }
}

proof fn lemma_doc_len_take_succ(d: Seq<Seq<char>>, i: int)
    requires
        0 <= i < d.len(),
    ensures
        doc_len(d.take(i + 1)) == doc_len(d.take(i)) + d[i].len(),
{
    assert(d.take(i + 1).drop_last() =~= d.take(i));
    assert(d.take(i + 1).last() == d[i]);
}

proof fn lemma_doc_len_split(d: Seq<Seq<char>>, i: int)
    requires
        0 <= i <= d.len(),
    ensures
        doc_len(d) == doc_len(d.take(i)) + doc_len(d.skip(i)),
    decreases d.len(),
{
    if i == d.len() {
        assert(d.take(i) =~= d);
        assert(d.skip(i) =~= Seq::<Seq<char>>::empty());
    } else {
        lemma_doc_len_split(d.drop_last(), i);
        assert(d.drop_last().take(i) =~= d.take(i));
        assert(d.skip(i).drop_last() =~= d.drop_last().skip(i));
        assert(d.skip(i).last() == d.last());
        assert(d.skip(i).len() > 0);
    }
}

proof fn lemma_doc_len_ge_count(d: Seq<Seq<char>>)
    requires
        forall|i: int| 0 <= i < d.len() ==> #[trigger] d[i].len() >= 1,
    ensures
        doc_len(d) >= d.len(),
    decreases d.len(),
{
    if d.len() > 0 {
        lemma_doc_len_ge_count(d.drop_last());
    }
}

/// The linear position of a well-formed cursor never exceeds
/// `doc_len - 1`, and reaches it exactly at the last line's sentinel.
proof fn lemma_pos_bound(m: BufModel)
    requires
        m.wf(),
    ensures
        cursor_pos(m) <= doc_len(m.data) - 1,
        cursor_pos(m) == doc_len(m.data) - 1 <==> (m.row == m.data.len() - 1 && m.col
            == m.cur_line().len() - 1),
{
    let d = m.data;
    lemma_doc_len_split(d, m.row);
    lemma_doc_len_split(d.skip(m.row), 1);
    assert(d.skip(m.row).take(1) =~= seq![d[m.row]]);
    assert(seq![d[m.row]].drop_last() =~= Seq::<Seq<char>>::empty());
    assert(doc_len(Seq::<Seq<char>>::empty()) == 0);
    assert(seq![d[m.row]].last() == d[m.row]);
    assert(doc_len(seq![d[m.row]]) == d[m.row].len());
    assert(d.skip(m.row).skip(1) =~= d.skip(m.row + 1));
    lemma_doc_len_nonneg(d.skip(m.row + 1));
    assert(forall|i: int|
        0 <= i < d.skip(m.row + 1).len() ==> #[trigger] d.skip(m.row + 1)[i].len() >= 1);
    lemma_doc_len_ge_count(d.skip(m.row + 1));
}

/// One `move_right` step: it keeps the document and the scroll offsets,
/// preserves well-formedness, advances the linear position by exactly one
/// until the cursor sits at the last line's sentinel, and there does
/// nothing.
pub proof fn lemma_move_right_step(m: BufModel)
    requires
        m.wf(),
    ensures
        move_right_m(m).wf(),
        move_right_m(m).data == m.data,
        move_right_m(m).name == m.name,
        move_right_m(m).row_off == m.row_off,
        move_right_m(m).col_off == m.col_off,
        cursor_pos(m) < doc_len(m.data) - 1 ==> cursor_pos(move_right_m(m)) == cursor_pos(m) + 1,
        cursor_pos(m) == doc_len(m.data) - 1 ==> move_right_m(m) == m,
        cursor_pos(m) <= doc_len(m.data) - 1,
{
    lemma_pos_bound(m);
    if m.col < m.cur_line().len() - 1 {
    } else if m.row < m.data.len() - 1 {
        lemma_doc_len_take_succ(m.data, m.row);
    }
}

/// Iterated `move_right`: the document and offsets stay put, the state is
/// well formed, and the linear position is the start position plus the
/// step count, saturating at the last line's sentinel.
pub proof fn lemma_iter_move_right(m: BufModel, n: nat)
    requires
        m.wf(),
    ensures
        iter_move_right(m, n).wf(),
        iter_move_right(m, n).data == m.data,
        iter_move_right(m, n).name == m.name,
        iter_move_right(m, n).row_off == m.row_off,
        iter_move_right(m, n).col_off == m.col_off,
        cursor_pos(iter_move_right(m, n)) == (if cursor_pos(m) + n <= doc_len(m.data) - 1 {
            cursor_pos(m) + n
        } else {
            doc_len(m.data) - 1
        }),
    decreases n,
{
    lemma_pos_bound(m);
    if n > 0 {
        lemma_iter_move_right(m, (n - 1) as nat);
        lemma_move_right_step(iter_move_right(m, (n - 1) as nat));
        lemma_pos_bound(iter_move_right(m, (n - 1) as nat));
    }
}

/// Repeated `move_right` from the origin of an M-line document terminates
/// movement at the last line's sentinel: once the step count reaches the
/// document's total length (minus one), the cursor sits on the last
/// line's last index and stays there.
pub proof fn lemma_move_right_terminates(m: BufModel, n: nat)
    requires
        m.wf(),
        m.row == 0,
        m.col == 0,
        n >= doc_len(m.data) - 1,
    ensures
        iter_move_right(m, n).row == m.data.len() - 1,
        iter_move_right(m, n).col == m.data[m.data.len() - 1].len() - 1,
{
    assert(m.data.take(0) =~= Seq::<Seq<char>>::empty());
    assert(cursor_pos(m) == 0);
    lemma_iter_move_right(m, n);
    lemma_pos_bound(iter_move_right(m, n));
}

} // verus!
