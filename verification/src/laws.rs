//! Properties that span several operations of the viewer.
use crate::app::{
    after_next, after_previous, flow_matches, follow_status, lemma_matching_indices, listed, matching_indices,
    reloaded, sorted_and_filtered, App, Mode,
};
use crate::input::{detail_step, filter_step, help_step, key_handled, normal_effect, normal_step, Effect, KeyCode};
use crate::text::{ascii_fold, eq_ignore_ascii_case, occurs_in};
use crate::theme::{color_of, hash_count, hex_value, lemma_hash_count, radix16_pair, Color};
use crate::flow::{newest_first, newest_first_of, with_time, Flow};
use crate::text::lowercase_text;
use crate::time::{later_than, lemma_instant_total, Timestamp};
use crate::ui::preview_text;
use vstd::prelude::*;

verus! {

proof fn lemma_in_with_time(s: Seq<Flow>, k: Timestamp)
    requires
        with_time(s, k).len() > 0,
    ensures
        exists|j: int| 0 <= j < s.len() && (#[trigger] s[j]).at == k,
{
    let pred = |f: Flow| f.at == k;
    let f = with_time(s, k)[0];
    s.lemma_filter_pred(pred, 0);
    assert(s.filter(pred).contains(f));
    s.lemma_filter_contains_rev(pred, f);
    assert(s.contains(f));
    let j = choose|j: int| 0 <= j < s.len() && s[j] == f;
    assert(s[j].at == k);
}

proof fn lemma_with_time_first(s: Seq<Flow>, k: Timestamp)
    requires
        s.len() > 0,
    ensures
        with_time(s, k) == (if s[0].at == k {
            seq![s[0]]
        } else {
            Seq::<Flow>::empty()
        }) + with_time(s.drop_first(), k),
{
    assert(s =~= seq![s[0]] + s.drop_first());
    s.drop_first().lemma_filter_prepend(s[0], |f: Flow| f.at == k);
}

proof fn lemma_empty_with_time(s: Seq<Flow>)
    requires
        s.len() > 0,
    ensures
        with_time(s, s[0].at).len() > 0,
{
    lemma_with_time_first(s, s[0].at);
}

/// A stable newest-first sort has one result: two sequences that are both
/// newest first and hold the flows of each instant in the same order are equal.
pub proof fn law_sort_result_unique(a: Seq<Flow>, x: Seq<Flow>, y: Seq<Flow>)
    requires
        newest_first_of(x, a),
        newest_first_of(y, a),
    ensures
        x == y,
    decreases x.len() + y.len(),
{
    if x.len() == 0 && y.len() == 0 {
        assert(x =~= y);
    } else if x.len() == 0 {
        lemma_empty_with_time(y);
        assert(with_time(x, y[0].at) == with_time(a, y[0].at));
        assert(x.filter(|f: Flow| f.at == y[0].at) =~= Seq::<Flow>::empty());
    } else if y.len() == 0 {
        lemma_empty_with_time(x);
        assert(with_time(y, x[0].at) == with_time(a, x[0].at));
        assert(y.filter(|f: Flow| f.at == x[0].at) =~= Seq::<Flow>::empty());
    } else {
        let kx = x[0].at;
        let ky = y[0].at;
        lemma_empty_with_time(x);
        lemma_empty_with_time(y);
        assert(with_time(x, kx) == with_time(a, kx));
        assert(with_time(y, kx) == with_time(a, kx));
        assert(with_time(x, ky) == with_time(a, ky));
        assert(with_time(y, ky) == with_time(a, ky));
        lemma_in_with_time(y, kx);
        lemma_in_with_time(x, ky);
        let j = choose|j: int| 0 <= j < y.len() && (#[trigger] y[j]).at == kx;
        let i = choose|i: int| 0 <= i < x.len() && (#[trigger] x[i]).at == ky;
        lemma_instant_total(kx, ky);
        if later_than(kx, ky) {
            if j > 0 {
                assert(!later_than(y[j].at, y[0].at));
            }
        }
        if later_than(ky, kx) {
            if i > 0 {
                assert(!later_than(x[i].at, x[0].at));
            }
        }
        assert(kx == ky);
        lemma_with_time_first(x, kx);
        lemma_with_time_first(y, kx);
        let x1 = x.drop_first();
        let y1 = y.drop_first();
        assert((seq![x[0]] + with_time(x1, kx))[0] == x[0]);
        assert((seq![y[0]] + with_time(y1, kx))[0] == y[0]);
        assert(x[0] == y[0]);
        assert forall|k: Timestamp| #[trigger] with_time(x1, k) == with_time(y1, k) by {
            lemma_with_time_first(x, k);
            lemma_with_time_first(y, k);
            assert(with_time(x, k) == with_time(a, k));
            assert(with_time(y, k) == with_time(a, k));
            if k == kx {
                assert(with_time(x1, k) =~= with_time(x, k).drop_first());
                assert(with_time(y1, k) =~= with_time(y, k).drop_first());
            } else {
                assert(with_time(x1, k) =~= with_time(x, k));
                assert(with_time(y1, k) =~= with_time(y, k));
            }
        }
        assert forall|p: int, q: int| 0 <= p < q < x1.len() implies !later_than(
            #[trigger] x1[q].at,
            #[trigger] x1[p].at,
        ) by {
            assert(x1[q] == x[q + 1] && x1[p] == x[p + 1]);
        }
        assert forall|p: int, q: int| 0 <= p < q < y1.len() implies !later_than(
            #[trigger] y1[q].at,
            #[trigger] y1[p].at,
        ) by {
            assert(y1[q] == y[q + 1] && y1[p] == y[p + 1]);
        }
        law_sort_result_unique(y1, x1, y1);
        assert(x =~= seq![x[0]] + x1);
        assert(y =~= seq![y[0]] + y1);
    }
}

/// Sorting newest first twice gives what sorting once gives: the flows
/// `apply_sort_and_filter` leaves are unchanged by another call.
pub proof fn law_sort_idempotent(a: Seq<Flow>, b: Seq<Flow>, c: Seq<Flow>)
    requires
        newest_first_of(b, a),
        newest_first_of(c, b),
    ensures
        c == b,
{
    law_sort_result_unique(b, c, b);
}

/// In a list of entries, moving down and then up returns to the same entry,
/// and so does moving up and then down.
pub proof fn law_next_previous_inverse(sel: usize, len: usize)
    requires
        sel < len,
    ensures
        after_previous(after_next(sel, len as int), len as int) == sel,
        after_next(after_previous(sel, len as int), len as int) == sel,
{
    let l = len as int;
    lemma_mod_small(sel + 1, l);
    if sel > 0 {
        lemma_mod_small(sel as int, l);
    } else {
        lemma_mod_small(l - 1 + 1, l);
    }
}

proof fn lemma_mod_small(v: int, l: int)
    requires
        0 <= v <= l,
        l > 0,
    ensures
        v < l ==> v % l == v,
        v == l ==> v % l == 0,
{
    assert(v < l ==> v % l == v) by (nonlinear_arith)
        requires
            0 <= v,
            l > 0,
    ;
    assert(v == l ==> v % l == 0) by (nonlinear_arith)
        requires
            l > 0,
    ;
}

/// Moving down as many times as the list has entries returns to the start.
pub proof fn law_next_cycles(sel: usize, len: usize, steps: nat)
    requires
        sel < len,
    ensures
        iterate_next(sel, len as int, steps) == ((sel + steps) % (len as int)) as usize,
    decreases steps,
{
    if steps > 0 {
        law_next_cycles(sel, len, (steps - 1) as nat);
        let prev = iterate_next(sel, len as int, (steps - 1) as nat);
        assert(prev == ((sel + steps - 1) % (len as int)) as usize);
        assert((((sel + steps - 1) % (len as int)) + 1) % (len as int) == (sel + steps) % (len as int)) by (nonlinear_arith)
            requires
                len > 0,
        ;
    } else {
        assert((sel as int) % (len as int) == sel as int) by (nonlinear_arith)
            requires
                sel < len,
        ;
    }
}

/// The selection after moving down `steps` times.
pub open spec fn iterate_next(sel: usize, len: int, steps: nat) -> usize
    decreases steps,
{
    if steps == 0 {
        sel
    } else {
        after_next(iterate_next(sel, len, (steps - 1) as nat), len)
    }
}

/// Switching follow mode twice restores it and changes nothing but the status line.
pub proof fn law_toggle_twice(a: App, b: App, c: App)
    requires
        b.follow_live == !a.follow_live,
        (App { status: a.status, follow_live: a.follow_live, ..b }) == a,
        b.status matches Some(s) && s@ == follow_status(b.follow_live),
        c.follow_live == !b.follow_live,
        (App { status: b.status, follow_live: b.follow_live, ..c }) == b,
        c.status matches Some(s) && s@ == follow_status(c.follow_live),
    ensures
        c.follow_live == a.follow_live,
        (App { status: a.status, ..c }) == a,
{
}

/// Following live traffic selects the newest listed flow: after a reload in
/// follow mode no listed flow is later than the selected one.
pub proof fn law_follow_selects_newest(a: App, filter_text: Seq<char>)
    requires
        a.flows@.len() <= usize::MAX,
        newest_first(a.flows@),
        a.filtered@ == listed(a.flows@, filter_text),
        a.filtered@.len() > 0,
        a.selected == 0,
    ensures
        a.selection() == Some(a.filtered@[0] as int),
        forall|q: int| 0 <= q < a.filtered@.len() ==> !later_than(
            #[trigger] a.flows@[a.filtered@[q] as int].at,
            a.flows@[a.filtered@[0] as int].at,
        ),
{
    lemma_matching_indices(a.flows@, lowercase_text(filter_text), a.flows@.len() as int);
    assert forall|q: int| 0 <= q < a.filtered@.len() implies !later_than(
        #[trigger] a.flows@[a.filtered@[q] as int].at,
        a.flows@[a.filtered@[0] as int].at,
    ) by {
        if q > 0 {
            assert(a.filtered@[0] < a.filtered@[q]);
        }
    }
}

/// A preview is never longer than the width it was cut to (for a width of
/// at least one character).
pub proof fn law_preview_fits(rendered: Seq<char>, max_len: usize)
    requires
        max_len >= 1,
    ensures
        preview_text(rendered, max_len).len() <= max_len,
{
    reveal_strlit("…");
}

/// Typing a character into the filter and deleting it again restores the
/// filter text, and with it the list shown over flows that were already
/// sorted and listed for that text.
pub proof fn law_type_then_delete(text: Seq<char>, c: char, flows: Seq<Flow>, sorted_again: Seq<Flow>)
    requires
        newest_first(flows),
        newest_first_of(sorted_again, flows),
    ensures
        text.push(c).drop_last() == text,
        sorted_again == flows,
        listed(sorted_again, text.push(c).drop_last()) == listed(flows, text),
{
    assert(text.push(c).drop_last() =~= text);
    assert(newest_first_of(flows, flows));
    law_sort_result_unique(flows, sorted_again, flows);
}

/// The filter lists exactly the flows it matches: an index is in the list
/// under `needle` when, and only when, its flow matches.
pub proof fn law_listed_exactly_matching(flows: Seq<Flow>, needle: Seq<char>, n: int)
    requires
        0 <= n <= flows.len(),
        n <= usize::MAX,
    ensures
        forall|i: int| 0 <= i < n ==> (matching_indices(flows, needle, n).contains(i as usize) <==> flow_matches(#[trigger] flows[i], needle)),
    decreases n,
{
    if n > 0 {
        law_listed_exactly_matching(flows, needle, n - 1);
        lemma_matching_indices(flows, needle, n - 1);
        let m = matching_indices(flows, needle, n - 1);
        assert forall|i: int| 0 <= i < n implies (matching_indices(flows, needle, n).contains(i as usize) <==> flow_matches(#[trigger] flows[i], needle)) by {
            if flow_matches(flows[n - 1], needle) {
                assert(matching_indices(flows, needle, n) == m.push((n - 1) as usize));
                if i < n - 1 {
                    if m.push((n - 1) as usize).contains(i as usize) {
                        let j = choose|j: int| 0 <= j < m.len() + 1 && #[trigger] m.push((n - 1) as usize)[j] == i as usize;
                        if j < m.len() {
                            assert(m[j] == i as usize);
                        }
                    }
                    if m.contains(i as usize) {
                        let j = choose|j: int| 0 <= j < m.len() && #[trigger] m[j] == i as usize;
                        assert(m.push((n - 1) as usize)[j] == i as usize);
                    }
                } else {
                    assert(m.push((n - 1) as usize)[m.len() as int] == (n - 1) as usize);
                }
            } else {
                assert(matching_indices(flows, needle, n) == m);
                if i == n - 1 {
                    if m.contains(i as usize) {
                        let j = choose|j: int| 0 <= j < m.len() && #[trigger] m[j] == i as usize;
                        assert(m[j] < n - 1);
                    }
                }
            }
        }
    }
}

/// `after` is `before` after one call of `App::next`, as its contract says.
pub open spec fn next_called(before: App, after: App) -> bool {
    after == (App { selected: after_next(before.selected, before.filtered@.len() as int), ..before })
}

proof fn lemma_next_calls(states: Seq<App>, k: int)
    requires
        0 <= k < states.len(),
        forall|i: int| 1 <= i < states.len() ==> next_called(states[i - 1], #[trigger] states[i]),
    ensures
        states[k].filtered@ == states[0].filtered@,
        states[k].selected == iterate_next(states[0].selected, states[0].filtered@.len() as int, k as nat),
    decreases k,
{
    if k > 0 {
        lemma_next_calls(states, k - 1);
        assert(next_called(states[k - 1], states[k]));
    }
}

/// Calling `App::next` once for each entry of a non-empty list brings the
/// selection back to where it started, and every selection on the way is an
/// entry of the list. `states[i]` is the viewer after the `i`-th call.
pub proof fn law_next_calls_cycle(states: Seq<App>)
    requires
        states.len() > 0,
        states.len() == states[0].filtered@.len() + 1,
        states[0].filtered@.len() > 0,
        states[0].selected < states[0].filtered@.len(),
        forall|i: int| 1 <= i < states.len() ==> next_called(states[i - 1], #[trigger] states[i]),
    ensures
        states.last().selected == states[0].selected,
        forall|i: int| 0 <= i < states.len() ==> #[trigger] states[i].selected < states[0].filtered@.len(),
{
    let n = states[0].filtered@.len();
    let sel = states[0].selected;
    assert(states[0].filtered.len() == n);
    assert forall|i: int| 0 <= i < states.len() implies #[trigger] states[i].selected < n by {
        lemma_next_calls(states, i);
        law_next_cycles(sel, n as usize, i as nat);
        assert(0 <= (sel + i) % (n as int) < n) by (nonlinear_arith)
            requires
                n > 0,
                i >= 0,
        ;
    }
    lemma_next_calls(states, states.len() - 1);
    law_next_cycles(sel, n as usize, n as nat);
    assert((sel + n) % (n as int) == sel) by (nonlinear_arith)
        requires
            n > 0,
            sel < n,
    ;
}

/// One operation on the viewer, as its contract says: a reload with freshly
/// read flows (plain, or asked for by the reload key), re-sorting and
/// re-filtering, moving down or up, switching follow mode, or a key handled
/// by the current mode.
#[verifier::opaque]
pub open spec fn viewer_step(before: App, after: App) -> bool {
    ||| exists|flows: Seq<Flow>| #[trigger] reloaded(before, after, flows) && after.status == before.status
    ||| exists|flows: Seq<Flow>| #[trigger] reloaded(before, after, flows) && after.status is Some
    ||| sorted_and_filtered(before, after)
    ||| next_called(before, after)
    ||| after == (App { selected: after_previous(before.selected, before.filtered@.len() as int), ..before })
    ||| {
        &&& after.follow_live == !before.follow_live
        &&& after.status matches Some(s) && s@ == follow_status(after.follow_live)
        &&& (App { status: before.status, follow_live: before.follow_live, ..after }) == before
    }
    ||| exists|code: KeyCode, ctrl: bool, e: Effect| #[trigger] key_handled(before, after, code, ctrl, e)
}

proof fn lemma_step_keeps_log_path(before: App, after: App)
    requires
        viewer_step(before, after),
    ensures
        after.log_path == before.log_path,
{
    reveal(viewer_step);
    if exists|code: KeyCode, ctrl: bool, e: Effect| #[trigger] key_handled(before, after, code, ctrl, e) {
        let (code, ctrl, e) = choose|code: KeyCode, ctrl: bool, e: Effect| #[trigger] key_handled(before, after, code, ctrl, e);
        assert(key_handled(before, after, code, ctrl, e));
    }
}

/// No operation changes the capture log the viewer follows: after any
/// sequence of them, the path polled is the one the viewer was made with.
pub proof fn law_log_path_kept(states: Seq<App>)
    requires
        forall|i: int| 1 <= i < states.len() ==> viewer_step(states[i - 1], #[trigger] states[i]),
    ensures
        forall|i: int| 0 <= i < states.len() ==> #[trigger] states[i].log_path_view() == states[0].log_path_view(),
    decreases states.len(),
{
    if states.len() > 1 {
        let front = states.drop_last();
        assert forall|i: int| 1 <= i < front.len() implies viewer_step(front[i - 1], #[trigger] front[i]) by {
            assert(viewer_step(states[i - 1], states[i]));
        }
        law_log_path_kept(front);
        let k = states.len() - 1;
        assert(viewer_step(states[k - 1], states[k]));
        lemma_step_keeps_log_path(states[k - 1], states[k]);
        assert(front[k - 1] == states[k - 1]);
        assert(front[0] == states[0]);
        assert(front[k - 1].log_path_view() == front[0].log_path_view());
        assert forall|i: int| 0 <= i < states.len() implies #[trigger] states[i].log_path_view() == states[0].log_path_view() by {
            if i < k {
                assert(front[i] == states[i]);
            }
        }
    }
}

/// Instants are ordered as time runs: whole seconds decide, and only within
/// one second do the nanoseconds break the tie.
pub proof fn law_later_is_time_order(a: Timestamp, b: Timestamp)
    ensures
        a.seconds() > b.seconds() ==> later_than(a, b),
        a.seconds() < b.seconds() ==> !later_than(a, b),
        a.seconds() == b.seconds() ==> (later_than(a, b) <==> a.subsec() > b.subsec()),
{
}

/// In a newest-first list the seconds never grow going down the list, and
/// within one second neither do the nanoseconds.
pub proof fn law_newest_first_by_seconds(s: Seq<Flow>)
    requires
        newest_first(s),
    ensures
        forall|i: int, j: int|
            0 <= i < j < s.len() ==> #[trigger] s[i].at.seconds() >= #[trigger] s[j].at.seconds(),
        forall|i: int, j: int|
            0 <= i < j < s.len() && s[i].at.seconds() == s[j].at.seconds() ==> #[trigger] s[i].at.subsec()
                >= #[trigger] s[j].at.subsec(),
{
    assert forall|i: int, j: int| 0 <= i < j < s.len() implies #[trigger] s[i].at.seconds()
        >= #[trigger] s[j].at.seconds() by {
        assert(!later_than(s[j].at, s[i].at));
    }
    assert forall|i: int, j: int|
        0 <= i < j < s.len() && s[i].at.seconds() == s[j].at.seconds() implies #[trigger] s[i].at.subsec()
        >= #[trigger] s[j].at.subsec() by {
        assert(!later_than(s[j].at, s[i].at));
    }
}

/// A flow is listed when the filter text, lowercased, occurs anywhere in its
/// lowercased rendering (at position `k`, on any line) or pipeline name.
pub proof fn law_content_or_name_match_is_listed(flows: Seq<Flow>, filter_text: Seq<char>, i: int, k: int)
    requires
        flows.len() <= usize::MAX,
        0 <= i < flows.len(),
        0 <= k,
        ({
            let needle = lowercase_text(filter_text);
            let hay = lowercase_text(flows[i].rendered@);
            let name = lowercase_text(flows[i].pipeline@);
            ||| k + needle.len() <= hay.len() && hay.subrange(k, k + needle.len()) == needle
            ||| k + needle.len() <= name.len() && name.subrange(k, k + needle.len()) == needle
        }),
    ensures
        listed(flows, filter_text).contains(i as usize),
{
    let needle = lowercase_text(filter_text);
    let hay = lowercase_text(flows[i].rendered@);
    let name = lowercase_text(flows[i].pipeline@);
    if k + needle.len() <= hay.len() && hay.subrange(k, k + needle.len()) == needle {
        assert(occurs_in(needle, hay));
    } else {
        assert(occurs_in(needle, name));
    }
    assert(flow_matches(flows[i], needle));
    law_listed_exactly_matching(flows, needle, flows.len() as int);
}

/// What each key of the help does in the normal mode: `q`, Esc and Ctrl-C
/// quit; `j`/Down and `k`/Up move one entry down or up, wrapping around; `/`
/// opens the filter, `f` switches follow mode, Enter and `l` open the detail
/// of a selected flow, `?` the help; `R`, and only `R`, asks for a reload.
pub proof fn law_normal_keys(before: App, after: App, code: KeyCode, ctrl: bool)
    requires
        normal_step(before, after, code, ctrl),
    ensures
        code == KeyCode::Char('q') || code == KeyCode::Esc || (code == KeyCode::Char('c') && ctrl)
            ==> after.should_quit,
        (code == KeyCode::Char('j') || code == KeyCode::Down) && before.filtered@.len() > 0 ==> after.selected
            == (before.selected + 1) % (before.filtered@.len() as int),
        (code == KeyCode::Char('k') || code == KeyCode::Up) && before.filtered@.len() > 0 ==> after.selected
            + 1 == if before.selected == 0 {
            before.filtered@.len() as int
        } else {
            before.selected as int
        },
        code == KeyCode::Char('/') ==> after.mode == Mode::Filter,
        code == KeyCode::Char('f') ==> after.follow_live == !before.follow_live,
        (code == KeyCode::Enter || code == KeyCode::Char('l')) && before.selection() is Some ==> after.mode
            == Mode::Detail,
        code == KeyCode::Char('?') ==> after.mode == Mode::Help,
        (normal_effect(code, ctrl) == Effect::Reload) <==> code == KeyCode::Char('R'),
{
    let n = before.filtered@.len() as int;
    assert(before.filtered.len() == n);
    if n > 0 {
        assert(0 <= (before.selected + 1) % n < n) by (nonlinear_arith)
            requires
                n > 0,
        ;
    }
}

/// Two characters are the same up to ASCII case: equal, or a capital ASCII
/// letter and its small letter.
pub open spec fn same_up_to_ascii_case(x: char, y: char) -> bool {
    ||| x == y
    ||| 'A' <= x <= 'Z' && y as int == x as int + 32
    ||| 'A' <= y <= 'Z' && x as int == y as int + 32
}

proof fn lemma_fold_pair(x: char, y: char)
    ensures
        (ascii_fold(x) == ascii_fold(y)) <==> same_up_to_ascii_case(x, y),
{
    let fx = ascii_fold(x);
    let fy = ascii_fold(y);
    if 'A' <= x <= 'Z' {
        assert(fx as u32 == x as u32 + 32);
    } else {
        assert(fx == x);
    }
    if 'A' <= y <= 'Z' {
        assert(fy as u32 == y as u32 + 32);
    } else {
        assert(fy == y);
    }
}

/// Texts are equal ignoring ASCII case exactly when they are as long and
/// each pair of characters is the same up to ASCII case, every letter `A`
/// to `Z` matching its small letter.
pub proof fn law_ascii_case_equality(a: Seq<char>, b: Seq<char>)
    ensures
        eq_ignore_ascii_case(a, b) <==> (a.len() == b.len() && forall|i: int|
            0 <= i < a.len() ==> same_up_to_ascii_case(#[trigger] a[i], b[i])),
{
    assert forall|i: int| 0 <= i < a.len() implies (ascii_fold(#[trigger] a[i]) == ascii_fold(b[i])
        <==> same_up_to_ascii_case(a[i], b[i])) by {
        lemma_fold_pair(a[i], b[i]);
    }
}

/// The byte of the hexadecimal digit for `v` (below 16), in small letters
/// or in capitals.
pub open spec fn digit_byte(v: u8, capital: bool) -> u8 {
    if v < 10 {
        (0x30 + v) as u8
    } else if capital {
        (0x37 + v) as u8
    } else {
        (0x57 + v) as u8
    }
}

/// Every hexadecimal digit, small or capital, reads as its value, and no
/// other byte reads as a digit.
pub proof fn law_hex_digit_values(c: u8)
    ensures
        forall|v: u8|
            v < 16 ==> #[trigger] hex_value(digit_byte(v, false)) == Some(v) && hex_value(digit_byte(v, true))
                == Some(v),
        hex_value(c) matches Some(v) ==> v < 16 && (c == digit_byte(v, false) || c == digit_byte(v, true)),
{
}

/// Two hexadecimal digits, of either case, read as a byte: sixteen times
/// the first digit's value plus the second's.
pub proof fn law_hex_pair(x: u8, y: u8, capital_x: bool, capital_y: bool)
    requires
        x < 16,
        y < 16,
    ensures
        radix16_pair(digit_byte(x, capital_x), digit_byte(y, capital_y)) == Some((16 * x + y) as u8),
{
    law_hex_digit_values(0);
}

/// Leading `#`s do not change the colour an entry stands for.
pub proof fn law_hash_prefix_ignored(b: Seq<u8>)
    ensures
        color_of(seq![0x23u8] + b) == color_of(b),
{
    let c = seq![0x23u8] + b;
    assert(c.drop_first() =~= b);
    assert(hash_count(c) == 1 + hash_count(b));
    lemma_hash_count(b);
    assert(c.skip(hash_count(c)) =~= b.skip(hash_count(b)));
}

/// Six hexadecimal digits, of either case, stand for the RGB colour of
/// their three digit pairs.
pub proof fn law_six_digit_color(d: Seq<u8>, v: Seq<u8>, caps: Seq<bool>)
    requires
        v.len() == 6,
        caps.len() == 6,
        d.len() == 6,
        forall|i: int| 0 <= i < 6 ==> v[i] < 16 && #[trigger] d[i] == digit_byte(v[i], caps[i]),
    ensures
        color_of(d) == Color::Rgb(
            (16 * v[0] + v[1]) as u8,
            (16 * v[2] + v[3]) as u8,
            (16 * v[4] + v[5]) as u8,
        ),
{
    assert(d[0] == digit_byte(v[0], caps[0]));
    assert(d[1] == digit_byte(v[1], caps[1]));
    assert(d[2] == digit_byte(v[2], caps[2]));
    assert(d[3] == digit_byte(v[3], caps[3]));
    assert(d[4] == digit_byte(v[4], caps[4]));
    assert(d[5] == digit_byte(v[5], caps[5]));
    assert(d[0] != 0x23);
    assert(hash_count(d) == 0);
    assert(d.skip(0) =~= d);
    law_hex_pair(v[0], v[1], caps[0], caps[1]);
    law_hex_pair(v[2], v[3], caps[2], caps[3]);
    law_hex_pair(v[4], v[5], caps[4], caps[5]);
}

/// What keys do in the filter editor and the popups: in the editor a
/// character is appended, Backspace deletes the last one, Enter leaves it
/// keeping the text and Esc leaves it with the text cleared; the detail
/// closes on Esc, `q` or `l` and the help on Esc, `q` or `?`, and no other
/// key changes them.
pub proof fn law_modal_keys(before: App, after: App, code: KeyCode)
    ensures
        filter_step(before, after, code) ==> {
            &&& code matches KeyCode::Char(c) ==> after.filter_text@ == before.filter_text@.push(c)
            &&& code == KeyCode::Backspace && before.filter_text@.len() > 0 ==> after.filter_text@
                == before.filter_text@.drop_last()
            &&& code == KeyCode::Enter ==> after.mode == Mode::Normal && after.filter_text
                == before.filter_text
            &&& code == KeyCode::Esc ==> after.mode == Mode::Normal && after.filter_text@.len() == 0
        },
        detail_step(before, after, code) ==> if code == KeyCode::Esc || code == KeyCode::Char('q')
            || code == KeyCode::Char('l') {
            after.mode == Mode::Normal
        } else {
            after == before
        },
        help_step(before, after, code) ==> if code == KeyCode::Esc || code == KeyCode::Char('q')
            || code == KeyCode::Char('?') {
            after.mode == Mode::Normal
        } else {
            after == before
        },
{
}

} // verus!
