//! What writing text to a console does, stated over the screen model and
//! proved: resets, line wraps, and text that holds no escape sequence.

use vstd::prelude::*;
use crate::drivers::io::ansi::{introducer, is_digit, ParseState, Params};
use crate::drivers::io::vgat_out::{low_byte, Screen, VgatChar, VgatDisplayStyle};
use vstd::arithmetic::div_mod::{
    lemma_add_mod_noop_right,
    lemma_fundamental_div_mod_converse,
    lemma_mod_add_multiples_vanish,
    lemma_small_mod,
};

verus! {

/// Reading `a` and then `b` is reading `a + b`.
pub proof fn lemma_after_all_append(
    sc: Screen,
    w: nat,
    h: nat,
    p: ParseState,
    a: Seq<char>,
    b: Seq<char>,
)
    ensures
        sc.after_all(w, h, p, a + b) == ({
            let (s, q) = sc.after_all(w, h, p, a);
            s.after_all(w, h, q, b)
        }),
    decreases b.len(),
{
    if b.len() == 0 {
        assert(a + b =~= a);
    } else {
        lemma_after_all_append(sc, w, h, p, a, b.drop_last());
        assert((a + b).drop_last() =~= a + b.drop_last());
        assert((a + b).last() == b.last());
    }
}

/// Writing `a` and then `b` in two calls is writing `a + b` in one, when
/// reading `a` ends outside any sequence: the cells, the cursor and the style
/// carry over from one call to the next.
pub proof fn lemma_written_append(sc: Screen, w: nat, h: nat, a: Seq<char>, b: Seq<char>)
    requires
        sc.after_all(w, h, ParseState::Idle, a).1 == ParseState::Idle,
    ensures
        sc.written(w, h, a).written(w, h, b) == sc.written(w, h, a + b),
{
    lemma_after_all_append(sc, w, h, ParseState::Idle, a, b);
}

/// Showing `a` and then `b` is showing `a + b`.
pub proof fn lemma_shown_all_append(sc: Screen, w: nat, h: nat, a: Seq<char>, b: Seq<char>)
    ensures
        sc.shown_all(w, h, a).shown_all(w, h, b) == sc.shown_all(w, h, a + b),
    decreases b.len(),
{
    if b.len() == 0 {
        assert(a + b =~= a);
    } else {
        lemma_shown_all_append(sc, w, h, a, b.drop_last());
        assert((a + b).drop_last() =~= a + b.drop_last());
        assert((a + b).last() == b.last());
    }
}

/// Reading the first `k` characters of an introducer outside any sequence
/// holds them back; reading all of it starts the parameters with the style
/// in effect.
pub proof fn lemma_read_introducer_prefix(sc: Screen, w: nat, h: nat, k: int)
    requires
        1 <= k <= introducer().len(),
    ensures
        sc.after_all(w, h, ParseState::Idle, introducer().take(k)) == if k
            == introducer().len() {
            (sc, ParseState::InParams(Params::start(sc.style)))
        } else {
            (sc, ParseState::Introducer { matched: k as usize })
        },
    decreases k,
{
    let intro = introducer();
    assert(intro.take(k).drop_last() =~= intro.take(k - 1));
    assert(intro.take(k).last() == intro[k - 1]);
    if k == 1 {
        assert(intro.take(0) =~= Seq::<char>::empty());
        assert(sc.after_all(w, h, ParseState::Idle, Seq::<char>::empty()) == (sc, ParseState::Idle));
    } else {
        lemma_read_introducer_prefix(sc, w, h, k - 1);
    }
}

/// Reading an introducer outside any sequence holds it back whole and starts
/// the parameters with the style in effect.
pub proof fn lemma_read_introducer(sc: Screen, w: nat, h: nat)
    ensures
        sc.after_all(w, h, ParseState::Idle, introducer()) == (
            sc,
            ParseState::InParams(Params::start(sc.style)),
        ),
{
    let intro = introducer();
    lemma_read_introducer_prefix(sc, w, h, intro.len() as int);
    assert(intro.take(intro.len() as int) =~= intro);
}

/// Whether `cs` holds only digits and `;`.
pub open spec fn is_param_text(cs: Seq<char>) -> bool {
    forall|i: int| 0 <= i < cs.len() ==> is_digit(#[trigger] cs[i]) || cs[i] == ';'
}

/// What reading the parameter text `cs` makes of `q`.
pub open spec fn params_read(q: Params, cs: Seq<char>) -> Params
    decreases cs.len(),
{
    if cs.len() == 0 {
        q
    } else {
        let r = params_read(q, cs.drop_last());
        if cs.last() == ';' {
            r.applied()
        } else {
            r.pushed(cs.last())
        }
    }
}

/// Digits and `;` inside a sequence change neither the cells nor the cursor
/// nor the style in effect; after a `;` no digit of the next parameter has
/// been read.
pub proof fn lemma_read_param_text(sc: Screen, w: nat, h: nat, q: Params, cs: Seq<char>)
    requires
        is_param_text(cs),
        q.wf(),
    ensures
        sc.after_all(w, h, ParseState::InParams(q), cs) == (
            sc,
            ParseState::InParams(params_read(q, cs)),
        ),
        params_read(q, cs).wf(),
        cs.len() > 0 && cs.last() == ';' ==> params_read(q, cs).value == 0,
    decreases cs.len(),
{
    if cs.len() > 0 {
        assert(is_param_text(cs.drop_last())) by {
            assert forall|i: int| 0 <= i < cs.drop_last().len() implies is_digit(
                #[trigger] cs.drop_last()[i],
            ) || cs.drop_last()[i] == ';' by {
                assert(cs.drop_last()[i] == cs[i]);
            }
        }
        assert(is_digit(cs[cs.len() - 1]) || cs[cs.len() - 1] == ';');
        lemma_read_param_text(sc, w, h, q, cs.drop_last());
    }
}

/// A sequence whose last parameter is `0` sets the initial style, whatever
/// the style was before, and leaves the cells and the cursor as they were.
pub proof fn lemma_reset_restores_default(
    sc: Screen,
    w: nat,
    h: nat,
    params: Seq<char>,
)
    requires
        is_param_text(params),
        params.len() == 0 || params.last() == ';',
    ensures
        sc.written(w, h, introducer() + params + seq!['0', 'm']) == (Screen {
            cells: sc.cells,
            row: sc.row,
            col: sc.col,
            style: VgatDisplayStyle::initial(),
        }),
{
    let intro = introducer();
    let tail = seq!['0', 'm'];
    let q0 = Params::start(sc.style);
    lemma_read_introducer(sc, w, h);
    lemma_read_param_text(sc, w, h, q0, params);
    lemma_after_all_append(sc, w, h, ParseState::Idle, intro, params);
    lemma_after_all_append(sc, w, h, ParseState::Idle, intro + params, tail);
    let q = params_read(q0, params);
    assert(q.value == 0);
    assert(tail.drop_last() =~= seq!['0']);
    assert(seq!['0'].drop_last() =~= Seq::<char>::empty());
    let q1 = q.pushed('0');
    assert(seq!['0'].last() == '0');
    assert(is_digit('0'));
    assert(sc.after(w, h, ParseState::InParams(q), '0') == (sc, ParseState::InParams(q1)));
    assert(sc.after_all(w, h, ParseState::InParams(q), Seq::<char>::empty()) == (
        sc,
        ParseState::InParams(q),
    ));
    assert(q1.value == 0 && q1.digits);
    assert(sc.after_all(w, h, ParseState::Idle, intro + params) == (sc, ParseState::InParams(q)));
    assert(sc.after_all(w, h, ParseState::InParams(q), seq!['0']) == (sc, ParseState::InParams(q1)));
    assert(q1.applied().style == VgatDisplayStyle::initial());
}

/// The cursor's place in the grid, counted row by row from the top left.
pub open spec fn cursor_index(sc: Screen, w: nat) -> int {
    (sc.row * w + sc.col) as int
}

/// Showing characters moves the cursor one cell on for each, round the grid
/// from the last cell to the first, and keeps the grid's size and the style.
pub proof fn lemma_shown_all_cursor(sc: Screen, w: nat, h: nat, cs: Seq<char>)
    requires
        sc.fits(w, h),
    ensures
        sc.shown_all(w, h, cs).fits(w, h),
        sc.shown_all(w, h, cs).style == sc.style,
        cursor_index(sc.shown_all(w, h, cs), w) == (cursor_index(sc, w) + cs.len()) % (
        w * h) as int,
    decreases cs.len(),
{
    let wh = (w * h) as int;
    assert(0 <= sc.row * w + sc.col < wh) by (nonlinear_arith)
        requires
            sc.row < h,
            sc.col < w,
            wh == w * h,
    ;
    if cs.len() == 0 {
        lemma_small_mod(cursor_index(sc, w) as nat, wh as nat);
    } else {
        let r = sc.shown_all(w, h, cs.drop_last());
        lemma_shown_all_cursor(sc, w, h, cs.drop_last());
        let pos = cursor_index(r, w);
        assert(0 <= pos < wh) by (nonlinear_arith)
            requires
                pos == r.row * w + r.col,
                r.row < h,
                r.col < w,
                wh == w * h,
        ;
        lemma_add_mod_noop_right(1, cursor_index(sc, w) + cs.drop_last().len(), wh);
        assert((pos + 1) % wh == (cursor_index(sc, w) + cs.len()) % wh);
        let n = sc.shown_all(w, h, cs);
        assert(n == r.shown(w, h, cs.last()));
        if r.col + 1 < w {
            assert(pos + 1 < wh) by (nonlinear_arith)
                requires
                    pos == r.row * w + r.col,
                    r.row < h,
                    r.col + 1 < w,
                    wh == w * h,
            ;
            lemma_small_mod((pos + 1) as nat, wh as nat);
            assert(cursor_index(n, w) == pos + 1);
            assert(cursor_index(n, w) == (pos + 1) % wh);
        } else if r.row + 1 < h {
            lemma_small_mod((r.row + 1) as nat, h);
            assert(cursor_index(n, w) == pos + 1 && pos + 1 < wh) by (nonlinear_arith)
                requires
                    pos == r.row * w + r.col,
                    r.col + 1 == w,
                    r.row + 1 < h,
                    n.row == r.row + 1,
                    n.col == 0,
                    wh == w * h,
            ;
            lemma_small_mod((pos + 1) as nat, wh as nat);
            assert(cursor_index(n, w) == (pos + 1) % wh);
        } else {
            assert(pos + 1 == wh) by (nonlinear_arith)
                requires
                    pos == r.row * w + r.col,
                    r.col + 1 == w,
                    r.row + 1 == h,
                    wh == w * h,
            ;
            assert((h as int) % (h as int) == 0) by (nonlinear_arith)
                requires
                    h > 0,
            ;
            assert(n.row == 0 && n.col == 0);
            assert(n.row * w + n.col == 0) by (nonlinear_arith)
                requires
                    n.row == 0,
                    n.col == 0,
            ;
            assert((pos + 1) % wh == 0);
            assert(wh % wh == 0) by (nonlinear_arith)
                requires
                    wh > 0,
            ;
            assert(cursor_index(n, w) == (pos + 1) % wh);
        }
    }
}

/// The cursor's row and column are those of its place in the grid.
proof fn lemma_cursor_from_index(sc: Screen, w: nat, h: nat, row: int, col: int)
    requires
        sc.fits(w, h),
        0 <= col < w,
        cursor_index(sc, w) == row * w + col,
    ensures
        sc.row == row,
        sc.col == col,
{
    lemma_fundamental_div_mod_converse(cursor_index(sc, w), w as int, sc.row as int, sc.col as int);
    lemma_fundamental_div_mod_converse(cursor_index(sc, w), w as int, row, col);
}

/// Whether the introducer `\x1b[` starts at `i` in `cs`.
pub open spec fn introducer_at(cs: Seq<char>, i: int) -> bool {
    0 <= i && i + 5 <= cs.len() && cs.subrange(i, i + 5) == introducer()
}

/// Whether `cs` holds no newline and no introducer. Backslashes may stand
/// anywhere in it.
pub open spec fn is_plain_text(cs: Seq<char>) -> bool {
    &&& forall|i: int| 0 <= i < cs.len() ==> #[trigger] cs[i] != '\n'
    &&& forall|i: int| !introducer_at(cs, i)
}

/// Where reading plain text stands after its first `n` characters: outside
/// any sequence with all of them shown, or holding back the first few
/// characters of the introducer, which end the text read, with
/// all before them shown.
spec fn plain_prefix_read(sc: Screen, w: nat, h: nat, cs: Seq<char>, n: int) -> bool {
    let (s, p) = sc.after_all(w, h, ParseState::Idle, cs.take(n));
    match p {
        ParseState::Idle => s == sc.shown_all(w, h, cs.take(n)),
        ParseState::Introducer { matched } => {
            &&& 1 <= matched < 5
            &&& matched <= n
            &&& cs.subrange(n - matched, n) == introducer().take(matched as int)
            &&& s == sc.shown_all(w, h, cs.take(n - matched))
        },
        ParseState::InParams(_) => false,
    }
}

proof fn lemma_plain_prefix(sc: Screen, w: nat, h: nat, cs: Seq<char>, n: int)
    requires
        is_plain_text(cs),
        0 <= n <= cs.len(),
    ensures
        plain_prefix_read(sc, w, h, cs, n),
    decreases n,
{
    let intro = introducer();
    if n == 0 {
        assert(cs.take(0) =~= Seq::<char>::empty());
        assert(sc.after_all(w, h, ParseState::Idle, cs.take(0)) == (sc, ParseState::Idle));
    } else {
        lemma_plain_prefix(sc, w, h, cs, n - 1);
        let c = cs[n - 1];
        assert(cs.take(n).drop_last() =~= cs.take(n - 1));
        assert(cs.take(n).last() == c);
        let (s, p) = sc.after_all(w, h, ParseState::Idle, cs.take(n - 1));
        assert(sc.after_all(w, h, ParseState::Idle, cs.take(n)) == s.after(w, h, p, c));
        assert(c != '\n');
        match p {
            ParseState::Idle => {
                lemma_plain_idle_step(sc, w, h, cs, n, s);
            },
            ParseState::Introducer { matched } => {
                let m = matched as int;
                let before = cs.take(n - 1 - m);
                assert(cs.subrange(n - 1 - m, n - 1) == intro.take(m));
                if c == intro[m] {
                    assert(cs.subrange(n - 1 - m, n) =~= intro.take(m + 1));
                    if m + 1 == 5 {
                        assert(intro.take(5) =~= intro);
                        assert(introducer_at(cs, n - 5));
                    }
                } else {
                    lemma_shown_all_append(sc, w, h, before, intro.take(m));
                    assert(before + intro.take(m) =~= cs.take(n - 1));
                    lemma_plain_idle_step(sc, w, h, cs, n, s.shown_all(w, h, intro.take(m)));
                }
            },
            ParseState::InParams(_) => {},
        }
    }
}

/// Reading the `n`-th character of plain text outside any sequence, when all
/// before it is shown, leaves the state that `plain_prefix_read` describes.
spec fn plain_prefix_read_idle(sc: Screen, w: nat, h: nat, cs: Seq<char>, n: int, s: Screen) -> bool {
    let (t, q) = s.after_idle(w, h, cs[n - 1]);
    match q {
        ParseState::Idle => t == sc.shown_all(w, h, cs.take(n)),
        ParseState::Introducer { matched } => {
            &&& matched == 1
            &&& cs.subrange(n - 1, n) == introducer().take(1)
            &&& t == sc.shown_all(w, h, cs.take(n - 1))
        },
        ParseState::InParams(_) => false,
    }
}

proof fn lemma_plain_idle_step(sc: Screen, w: nat, h: nat, cs: Seq<char>, n: int, s: Screen)
    requires
        is_plain_text(cs),
        1 <= n <= cs.len(),
        s == sc.shown_all(w, h, cs.take(n - 1)),
    ensures
        plain_prefix_read_idle(sc, w, h, cs, n, s),
{
    let c = cs[n - 1];
    assert(c != '\n');
    assert(cs.take(n).drop_last() =~= cs.take(n - 1));
    assert(cs.take(n).last() == c);
    if c == '\\' {
        assert(cs.subrange(n - 1, n) =~= introducer().take(1));
    }
}

/// Text with no newline and no introducer is shown as it is, character by
/// character, in the style in effect: a backslash that does not start an
/// introducer is shown where it stands and nothing is lost.
pub proof fn lemma_plain_text_shown(sc: Screen, w: nat, h: nat, cs: Seq<char>)
    requires
        is_plain_text(cs),
    ensures
        sc.written(w, h, cs) == sc.shown_all(w, h, cs),
{
    lemma_plain_prefix(sc, w, h, cs, cs.len() as int);
    assert(cs.take(cs.len() as int) =~= cs);
    let (s, p) = sc.after_all(w, h, ParseState::Idle, cs);
    if let ParseState::Introducer { matched } = p {
        let m = matched as int;
        lemma_shown_all_append(sc, w, h, cs.take(cs.len() - m), introducer().take(m));
        assert(cs.take(cs.len() - m) + cs.subrange(cs.len() - m, cs.len() as int) =~= cs);
    }
}

/// Plain text exactly one row wide moves the cursor down one row, from the
/// last row to the first, and back to the column it started in: from the
/// start of a row, to the start of the next.
pub proof fn lemma_row_of_text_moves_down(sc: Screen, w: nat, h: nat, cs: Seq<char>)
    requires
        sc.fits(w, h),
        is_plain_text(cs),
        cs.len() == w,
    ensures
        sc.written(w, h, cs).row == (sc.row + 1) % h,
        sc.written(w, h, cs).col == sc.col,
{
    let wh = (w * h) as int;
    lemma_plain_text_shown(sc, w, h, cs);
    lemma_shown_all_cursor(sc, w, h, cs);
    let r = sc.written(w, h, cs);
    let start = cursor_index(sc, w);
    assert(start + w == (sc.row + 1) * w + sc.col) by (nonlinear_arith)
        requires
            start == sc.row * w + sc.col,
    ;
    if sc.row + 1 < h {
        assert((sc.row + 1) * w + sc.col < wh) by (nonlinear_arith)
            requires
                sc.row + 1 < h,
                sc.col < w,
                wh == w * h,
        ;
        lemma_small_mod((start + w) as nat, wh as nat);
        lemma_small_mod((sc.row + 1) as nat, h);
        lemma_cursor_from_index(r, w, h, sc.row + 1 as int, sc.col as int);
    } else {
        assert(start + w == wh + sc.col) by (nonlinear_arith)
            requires
                start + w == (sc.row + 1) * w + sc.col,
                sc.row + 1 == h,
                wh == w * h,
        ;
        assert(sc.col < wh) by (nonlinear_arith)
            requires
                sc.col < w,
                sc.row < h,
                wh == w * h,
        ;
        lemma_mod_add_multiples_vanish(sc.col as int, wh);
        lemma_small_mod(sc.col, wh as nat);
        assert((h as int) % (h as int) == 0) by (nonlinear_arith)
            requires
                h > 0,
        ;
        lemma_cursor_from_index(r, w, h, 0, sc.col as int);
    }
}

/// Plain text that fills the grid exactly once brings the cursor back to
/// where it started.
pub proof fn lemma_grid_of_text_returns_cursor(sc: Screen, w: nat, h: nat, cs: Seq<char>)
    requires
        sc.fits(w, h),
        is_plain_text(cs),
        cs.len() == w * h,
    ensures
        sc.written(w, h, cs).row == sc.row,
        sc.written(w, h, cs).col == sc.col,
{
    let wh = (w * h) as int;
    lemma_plain_text_shown(sc, w, h, cs);
    lemma_shown_all_cursor(sc, w, h, cs);
    let r = sc.written(w, h, cs);
    let start = cursor_index(sc, w);
    assert(0 <= start < wh) by (nonlinear_arith)
        requires
            start == sc.row * w + sc.col,
            sc.row < h,
            sc.col < w,
            wh == w * h,
    ;
    lemma_mod_add_multiples_vanish(start, wh);
    lemma_small_mod(start as nat, wh as nat);
    lemma_cursor_from_index(r, w, h, sc.row as int, sc.col as int);
}

/// Two places fewer than `m` apart fall on different cells of a ring of `m`.
proof fn lemma_mod_distinct(x: int, y: int, m: int)
    requires
        0 < m,
        x < y < x + m,
    ensures
        x % m != y % m,
{
    let qx = x / m;
    let qy = y / m;
    assert(x == qx * m + x % m && 0 <= x % m < m) by {
        vstd::arithmetic::div_mod::lemma_fundamental_div_mod(x, m);
        vstd::arithmetic::div_mod::lemma_mod_bound(x, m);
    }
    assert(y == qy * m + y % m && 0 <= y % m < m) by {
        vstd::arithmetic::div_mod::lemma_fundamental_div_mod(y, m);
        vstd::arithmetic::div_mod::lemma_mod_bound(y, m);
    }
    if x % m == y % m {
        assert(false) by (nonlinear_arith)
            requires
                x == qx * m + x % m,
                y == qy * m + y % m,
                x % m == y % m,
                x < y < x + m,
                0 < m,
        ;
    }
}

/// Showing at most a grid's worth of characters puts the `k`-th of them,
/// in the style in effect, `k` cells on from where the cursor started,
/// round the grid from the last cell to the first.
pub proof fn lemma_shown_all_cells(sc: Screen, w: nat, h: nat, cs: Seq<char>)
    requires
        sc.fits(w, h),
        cs.len() <= w * h,
    ensures
        forall|k: int|
            0 <= k < cs.len() ==> #[trigger] sc.shown_all(w, h, cs).cells[(cursor_index(sc, w) + k)
                % (w * h) as int] == (VgatChar {
                value: low_byte(cs[k]),
                style: sc.style.packed() as u8,
            }),
    decreases cs.len(),
{
    if cs.len() > 0 {
        let wh = (w * h) as int;
        let p0 = cursor_index(sc, w);
        let last = cs.len() - 1;
        let r = sc.shown_all(w, h, cs.drop_last());
        lemma_shown_all_cells(sc, w, h, cs.drop_last());
        lemma_shown_all_cursor(sc, w, h, cs.drop_last());
        let n = sc.shown_all(w, h, cs);
        assert(n == r.shown(w, h, cs.last()));
        assert(cursor_index(r, w) == (p0 + last) % wh);
        assert forall|k: int| 0 <= k < cs.len() implies #[trigger] n.cells[(p0 + k) % wh] == (
        VgatChar { value: low_byte(cs[k]), style: sc.style.packed() as u8 }) by {
            if k < last {
                lemma_mod_distinct(p0 + k, p0 + last, wh);
                assert(cs.drop_last()[k] == cs[k]);
            }
        }
    }
}

/// Plain text of at most a grid's worth of characters is placed character
/// by character, backslashes included and nothing lost: the `k`-th lands
/// `k` cells on from where the cursor started, round the grid, as its low
/// byte in the style in effect, and the cursor ends one cell past the last.
pub proof fn lemma_plain_text_placed(sc: Screen, w: nat, h: nat, cs: Seq<char>)
    requires
        sc.fits(w, h),
        is_plain_text(cs),
        cs.len() <= w * h,
    ensures
        forall|k: int|
            0 <= k < cs.len() ==> #[trigger] sc.written(w, h, cs).cells[(cursor_index(sc, w) + k)
                % (w * h) as int] == (VgatChar {
                value: low_byte(cs[k]),
                style: sc.style.packed() as u8,
            }),
        cursor_index(sc.written(w, h, cs), w) == (cursor_index(sc, w) + cs.len()) % (
        w * h) as int,
        sc.written(w, h, cs).style == sc.style,
{
    lemma_plain_text_shown(sc, w, h, cs);
    lemma_shown_all_cells(sc, w, h, cs);
    lemma_shown_all_cursor(sc, w, h, cs);
}

} // verus!
