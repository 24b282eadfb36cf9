//! Reduction of the remote listing command's captured output to a tally of
//! container states: (total, up, down, failed).

use vstd::prelude::*;
use vstd::string::StrSliceExecFns;

verus! {

/// How one non-empty line of the captured output is classified.
#[derive(Clone, Copy, PartialEq, Eq, Structural, Debug)]
pub enum LineClass {
    Up,
    Down,
    Failed,
}

/// A piece's text with one trailing carriage return removed: a piece ended
/// by a line break drops the carriage return of a `\r\n` ending, so output
/// captured with either line ending classifies the same states.
pub open spec fn strip_cr(p: Seq<char>) -> Seq<char> {
    if p.len() > 0 && p.last() == '\r' {
        p.drop_last()
    } else {
        p
    }
}

/// The exhaustive three-way classification of one non-empty line: the
/// literal state `running` counts as up, the literal state `exited` as
/// down, and any other text as failed.
pub open spec fn line_class(l: Seq<char>) -> LineClass {
    if l == "running"@ {
        LineClass::Up
    } else if l == "exited"@ {
        LineClass::Down
    } else {
        LineClass::Failed
    }
}

/// What one piece ended by a line break (the text between two line breaks,
/// or before the first) contributes: the carriage return of a `\r\n` ending
/// is removed first; nothing when the rest is empty, otherwise its
/// classification.
pub open spec fn piece_class(p: Seq<char>) -> Option<LineClass> {
    let l = strip_cr(p);
    if l.len() == 0 {
        None
    } else {
        Some(line_class(l))
    }
}

/// What the text after the last line break contributes: no line break ends
/// it, so no carriage return is removed — a bare trailing carriage return
/// stays part of the line's exact text; nothing when empty.
pub open spec fn tail_class(p: Seq<char>) -> Option<LineClass> {
    if p.len() == 0 {
        None
    } else {
        Some(line_class(p))
    }
}

/// The empty tally, as (total, up, down, failed).
pub open spec fn t4_zero() -> (int, int, int, int) {
    (0, 0, 0, 0)
}

/// Componentwise sum of two tallies.
pub open spec fn t4_add(a: (int, int, int, int), b: (int, int, int, int)) -> (int, int, int, int) {
    (a.0 + b.0, a.1 + b.1, a.2 + b.2, a.3 + b.3)
}

/// A tally raised by one line's contribution: `total` and exactly one of
/// the other three counters, or nothing for an empty line.
pub open spec fn t4_bump(t: (int, int, int, int), c: Option<LineClass>) -> (int, int, int, int) {
    match c {
        None => t,
        Some(LineClass::Up) => (t.0 + 1, t.1 + 1, t.2, t.3),
        Some(LineClass::Down) => (t.0 + 1, t.1, t.2 + 1, t.3),
        Some(LineClass::Failed) => (t.0 + 1, t.1, t.2, t.3 + 1),
    }
}

/// The tally of the rest of the output `s`, where `cur` holds the part of
/// the current line read so far.
pub open spec fn tally_rec(s: Seq<char>, cur: Seq<char>) -> (int, int, int, int)
    decreases s.len(),
{
    if s.len() == 0 {
        t4_bump(t4_zero(), tail_class(cur))
    } else if s[0] == '\n' {
        t4_add(t4_bump(t4_zero(), piece_class(cur)), tally_rec(s.drop_first(), Seq::empty()))
    } else {
        tally_rec(s.drop_first(), cur.push(s[0]))
    }
}

/// The tally of a captured output: each line break ends a line and drops
/// the carriage return of a `\r\n` ending; text after the last line break
/// is one more line, kept exactly as it stands. An empty line contributes
/// nothing — in particular a trailing line break adds no phantom line — and
/// every other line raises `total` together with exactly one of `up`,
/// `down` and `failed`.
pub open spec fn tally_of(s: Seq<char>) -> (int, int, int, int) {
    tally_rec(s, Seq::empty())
}

/// True exactly when the two strings hold the same characters.
fn str_eq(a: &str, b: &str) -> (r: bool)
    ensures
        r == (a@ == b@),
{
    let alen: usize = a.unicode_len();
    let blen: usize = b.unicode_len();
    if alen != blen {
        return false;
    }
    let mut i: usize = 0;
    while i < alen
        invariant
            i <= alen,
            alen as nat == a@.len(),
            alen as nat == b@.len(),
            forall|j: int| 0 <= j < i ==> a@[j] == b@[j],
        decreases alen - i,
    {
        if a.get_char(i) != b.get_char(i) {
            return false;
        }
        i += 1;
    }
    proof {
        assert(a@ =~= b@);
    }
    true
}

/// The exhaustive three-way classification of one line's exact text.
fn classify_line(l: &str) -> (r: LineClass)
    ensures
        r == line_class(l@),
{
    if str_eq(l, "running") {
        LineClass::Up
    } else if str_eq(l, "exited") {
        LineClass::Down
    } else {
        LineClass::Failed
    }
}

/// The classification of one piece ended by a line break.
fn classify_piece(piece: &str) -> (r: Option<LineClass>)
    ensures
        r == piece_class(piece@),
{
    let len: usize = piece.unicode_len();
    let eff: usize = if len > 0 && piece.get_char(len - 1) == '\r' {
        len - 1
    } else {
        len
    };
    proof {
        assert(piece@.subrange(0, eff as int) =~= strip_cr(piece@));
    }
    let l = piece.substring_char(0, eff);
    if l.unicode_len() == 0 {
        None
    } else {
        Some(classify_line(l))
    }
}

/// The classification of the text after the last line break.
fn classify_tail(piece: &str) -> (r: Option<LineClass>)
    ensures
        r == tail_class(piece@),
{
    if piece.unicode_len() == 0 {
        None
    } else {
        Some(classify_line(piece))
    }
}

/// Reduces the captured output of the remote listing command to the tally
/// (total, up, down, failed), classifying each line as `tally_of` states.
pub fn tally_states(output: &str) -> (r: (usize, usize, usize, usize))
    ensures
        (r.0 as int, r.1 as int, r.2 as int, r.3 as int) == tally_of(output@),
        r.0 == r.1 + r.2 + r.3,
{
    let n: usize = output.unicode_len();
    let mut total: usize = 0;
    let mut up: usize = 0;
    let mut down: usize = 0;
    let mut failed: usize = 0;
    let mut i: usize = 0;
    let mut line_start: usize = 0;
    proof {
        assert(output@.skip(0) =~= output@);
        assert(output@.subrange(0, 0) =~= Seq::<char>::empty());
    }
    while i < n
        invariant
            line_start <= i <= n,
            n as nat == output@.len(),
            total <= line_start,
            total == up + down + failed,
            t4_add(
                (total as int, up as int, down as int, failed as int),
                tally_rec(output@.skip(i as int), output@.subrange(line_start as int, i as int)),
            ) == tally_of(output@),
        decreases n - i,
    {
        let c = output.get_char(i);
        if c == '\n' {
            let piece = output.substring_char(line_start, i);
            let cls = classify_piece(piece);
            proof {
                assert(output@.skip(i as int)[0] == '\n');
                assert(output@.skip(i as int).drop_first() =~= output@.skip(i as int + 1));
                assert(output@.subrange(i as int + 1, i as int + 1) =~= Seq::<char>::empty());
            }
            match cls {
                None => {
                },
                Some(LineClass::Up) => {
                    total += 1;
                    up += 1;
                },
                Some(LineClass::Down) => {
                    total += 1;
                    down += 1;
                },
                Some(LineClass::Failed) => {
                    total += 1;
                    failed += 1;
                },
            }
            i += 1;
            line_start = i;
        } else {
            proof {
                assert(output@.skip(i as int)[0] == output@[i as int]);
                assert(output@.skip(i as int).drop_first() =~= output@.skip(i as int + 1));
                assert(output@.subrange(line_start as int, i as int).push(output@[i as int])
                    =~= output@.subrange(line_start as int, i as int + 1));
            }
            i += 1;
        }
    }
    let piece = output.substring_char(line_start, n);
    let cls = classify_tail(piece);
    proof {
        assert(output@.skip(n as int) =~= Seq::<char>::empty());
        if tail_class(piece@) is Some {
            assert(piece@.len() > 0);
            assert(line_start < n);
        }
    }
    match cls {
        None => {
        },
        Some(LineClass::Up) => {
            total += 1;
            up += 1;
        },
        Some(LineClass::Down) => {
            total += 1;
            down += 1;
        },
        Some(LineClass::Failed) => {
            total += 1;
            failed += 1;
        },
    }
    (total, up, down, failed)
}

proof fn lemma_tally_rec_components(s: Seq<char>, cur: Seq<char>)
    ensures
        ({
            let t = tally_rec(s, cur);
            t.0 == t.1 + t.2 + t.3 && t.1 >= 0 && t.2 >= 0 && t.3 >= 0
        }),
    decreases s.len(),
{
    if s.len() == 0 {
    } else if s[0] == '\n' {
        lemma_tally_rec_components(s.drop_first(), Seq::empty());
    } else {
        lemma_tally_rec_components(s.drop_first(), cur.push(s[0]));
    }
}

/// The tally of every captured output satisfies the counting invariant:
/// `total` equals `up + down + failed`, and no counter is negative.
pub proof fn lemma_tally_invariant(s: Seq<char>)
    ensures
        tally_of(s).0 == tally_of(s).1 + tally_of(s).2 + tally_of(s).3,
        tally_of(s).1 >= 0,
        tally_of(s).2 >= 0,
        tally_of(s).3 >= 0,
{
    lemma_tally_rec_components(s, Seq::empty());
}

proof fn lemma_tally_rec_concat(s1: Seq<char>, s2: Seq<char>, cur: Seq<char>)
    requires
        s1.len() > 0,
        s1.last() == '\n',
    ensures
        tally_rec(s1 + s2, cur) == t4_add(tally_rec(s1, cur), tally_of(s2)),
    decreases s1.len(),
{
    let s = s1 + s2;
    assert(s[0] == s1[0]);
    if s1.len() == 1 {
        assert(s1[0] == '\n');
        assert(s.drop_first() =~= s2);
        assert(s1.drop_first() =~= Seq::<char>::empty());
        assert(tally_rec(Seq::<char>::empty(), Seq::<char>::empty()) == t4_zero());
        assert(tally_rec(s1, cur) == t4_add(t4_bump(t4_zero(), piece_class(cur)), t4_zero()));
        assert(tally_rec(s, cur) == t4_add(
            t4_bump(t4_zero(), piece_class(cur)),
            tally_rec(s2, Seq::<char>::empty()),
        ));
    } else {
        assert(s.drop_first() =~= s1.drop_first() + s2);
        assert(s1.drop_first().last() == s1.last());
        if s1[0] == '\n' {
            lemma_tally_rec_concat(s1.drop_first(), s2, Seq::empty());
        } else {
            lemma_tally_rec_concat(s1.drop_first(), s2, cur.push(s1[0]));
        }
    }
}

/// Appending further output after a complete line break changes the tally
/// by exactly the appended part's own tally.
pub proof fn lemma_tally_concat(s1: Seq<char>, s2: Seq<char>)
    requires
        s1.len() == 0 || s1.last() == '\n',
    ensures
        tally_of(s1 + s2) == t4_add(tally_of(s1), tally_of(s2)),
{
    if s1.len() == 0 {
        assert(s1 + s2 =~= s2);
    } else {
        lemma_tally_rec_concat(s1, s2, Seq::empty());
    }
}

proof fn lemma_tally_rec_line(l: Seq<char>, cur: Seq<char>)
    requires
        !l.contains('\n'),
    ensures
        tally_rec(l.push('\n'), cur) == t4_bump(t4_zero(), piece_class(cur + l)),
    decreases l.len(),
{
    let s = l.push('\n');
    if l.len() == 0 {
        assert(s[0] == '\n');
        assert(s.drop_first() =~= Seq::<char>::empty());
        assert(cur + l =~= cur);
        assert(tally_rec(Seq::<char>::empty(), Seq::<char>::empty()) == t4_zero());
        assert(tally_rec(s, cur) == t4_add(t4_bump(t4_zero(), piece_class(cur)), t4_zero()));
    } else {
        assert(s[0] == l[0]);
        if l[0] == '\n' {
            assert(l.contains('\n'));
            assert(false);
        }
        assert(!l.drop_first().contains('\n')) by {
            if l.drop_first().contains('\n') {
                let k = choose|k: int|
                    0 <= k < l.drop_first().len() && l.drop_first()[k] == '\n';
                assert(l[k + 1] == '\n');
                assert(l.contains('\n'));
            }
        }
        assert(s.drop_first() =~= l.drop_first().push('\n'));
        lemma_tally_rec_line(l.drop_first(), cur.push(l[0]));
        assert(cur.push(l[0]) + l.drop_first() =~= cur + l);
    }
}

/// A single line ending in a line break tallies as exactly its own
/// classification.
pub proof fn lemma_tally_line(l: Seq<char>)
    requires
        !l.contains('\n'),
    ensures
        tally_of(l.push('\n')) == t4_bump(t4_zero(), piece_class(l)),
{
    lemma_tally_rec_line(l, Seq::empty());
    assert(Seq::<char>::empty() + l =~= l);
}

proof fn lemma_tally_rec_tail(l: Seq<char>, cur: Seq<char>)
    requires
        !l.contains('\n'),
    ensures
        tally_rec(l, cur) == t4_bump(t4_zero(), tail_class(cur + l)),
    decreases l.len(),
{
    if l.len() == 0 {
        assert(cur + l =~= cur);
    } else {
        if l[0] == '\n' {
            assert(l.contains('\n'));
            assert(false);
        }
        assert(!l.drop_first().contains('\n')) by {
            if l.drop_first().contains('\n') {
                let k = choose|k: int|
                    0 <= k < l.drop_first().len() && l.drop_first()[k] == '\n';
                assert(l[k + 1] == '\n');
                assert(l.contains('\n'));
            }
        }
        lemma_tally_rec_tail(l.drop_first(), cur.push(l[0]));
        assert(cur.push(l[0]) + l.drop_first() =~= cur + l);
    }
}

/// Text standing after the last line break tallies as exactly its own
/// classification, its characters kept as they stand.
pub proof fn lemma_tally_tail(l: Seq<char>)
    requires
        !l.contains('\n'),
    ensures
        tally_of(l) == t4_bump(t4_zero(), tail_class(l)),
{
    lemma_tally_rec_tail(l, Seq::empty());
    assert(Seq::<char>::empty() + l =~= l);
}

/// Appending one more line to captured output that is empty or ends at a
/// line break raises the tally by exactly that line's classification: the
/// literal state `running` raises `up`, the literal state `exited` raises
/// `down`, any other non-empty text raises `failed` — each together with
/// `total` — and a line that is empty (once a trailing carriage return is
/// removed) raises nothing.
pub proof fn lemma_line_classification(s: Seq<char>, l: Seq<char>)
    requires
        s.len() == 0 || s.last() == '\n',
        !l.contains('\n'),
    ensures
        ({
            let before = tally_of(s);
            let after = tally_of(s + l.push('\n'));
            let text = strip_cr(l);
            &&& text == "running"@ ==> after == (before.0 + 1, before.1 + 1, before.2, before.3)
            &&& text == "exited"@ ==> after == (before.0 + 1, before.1, before.2 + 1, before.3)
            &&& text.len() > 0 && text != "running"@ && text != "exited"@ ==> after == (
                before.0 + 1,
                before.1,
                before.2,
                before.3 + 1,
            )
            &&& text.len() == 0 ==> after == before
        }),
{
    reveal_strlit("running");
    reveal_strlit("exited");
    lemma_tally_concat(s, l.push('\n'));
    lemma_tally_line(l);
}

/// A final line not ended by a line break is classified by its exact text:
/// `running` raises `up`, `exited` raises `down`, any other non-empty text —
/// one ending in a bare carriage return included — raises `failed`, each
/// together with `total`, and empty trailing content adds no line.
pub proof fn lemma_tail_classification(s: Seq<char>, l: Seq<char>)
    requires
        s.len() == 0 || s.last() == '\n',
        !l.contains('\n'),
    ensures
        ({
            let before = tally_of(s);
            let after = tally_of(s + l);
            &&& l == "running"@ ==> after == (before.0 + 1, before.1 + 1, before.2, before.3)
            &&& l == "exited"@ ==> after == (before.0 + 1, before.1, before.2 + 1, before.3)
            &&& l.len() > 0 && l != "running"@ && l != "exited"@ ==> after == (
                before.0 + 1,
                before.1,
                before.2,
                before.3 + 1,
            )
            &&& l.len() == 0 ==> after == before
        }),
{
    reveal_strlit("running");
    reveal_strlit("exited");
    lemma_tally_concat(s, l);
    lemma_tally_tail(l);
}

} // verus!
