//! What the configuration commands keep: a configuration that passes
//! validation still passes it after any command that succeeds, so the file
//! they save can always be loaded again.
use vstd::prelude::*;
use crate::cli::{
    ImmersiveValue, eq_set_pre, immersive_of, immersive_set_pre, mode_add_pre, mode_remove_pre,
    mode_set_pre, noise_set_pre,
};
use crate::config::{
    ConfigView, all_mode_views, config_valid, custom_mode_error, find_named, first_custom_error,
    first_named_index, first_with_audio, has_named, insert_sorted, lemma_active_mode_matches,
    lemma_find_named_some, lemma_first_named_index_props, lemma_insert_sorted_contents,
    lemma_sort_contents, lemma_upsert_respects_limit, sort_by_name, upsert_outcome, without_named,
};
use crate::config::ConfigFile;
use crate::domain::{ModeView, bool_text, builtin_mode_views, eq_valid, immersive_text, noise_valid};
use crate::tui::{
    App, Key, KeyCode, Screen, after_commit, after_rollback, after_sync, commit_outcome, committed,
    committed_and_synced, controls_match, device_entered, immersive_for, is_adjust, is_back,
    is_down, is_quit, is_up, key_step, adjust_up, persisted_noise, same_frame, stepped_level,
};
use crate::text::{
    ascii_lower, decimal, eq_ignore_case, is_whitespace, lemma_trim_idempotent, lemma_trim_unchanged,
    trim,
};

verus! {

proof fn lemma_eq_ignore_case_symmetric(a: Seq<char>, b: Seq<char>)
    requires
        eq_ignore_case(a, b),
    ensures
        eq_ignore_case(b, a),
{
    assert forall|i: int| 0 <= i < b.len() implies ascii_lower(#[trigger] b[i]) == ascii_lower(
        a[i],
    ) by {
        assert(ascii_lower(a[i]) == ascii_lower(b[i]));
    }
}

proof fn lemma_eq_ignore_case_transitive(a: Seq<char>, b: Seq<char>, c: Seq<char>)
    requires
        eq_ignore_case(a, b),
        eq_ignore_case(b, c),
    ensures
        eq_ignore_case(a, c),
{
    assert forall|i: int| 0 <= i < a.len() implies ascii_lower(#[trigger] a[i]) == ascii_lower(
        c[i],
    ) by {
        assert(ascii_lower(a[i]) == ascii_lower(b[i]));
        assert(ascii_lower(b[i]) == ascii_lower(c[i]));
    }
}

/// No two custom modes are named alike, ignoring ASCII case.
pub open spec fn names_distinct(ms: Seq<ModeView>) -> bool {
    forall|i: int, j: int|
        0 <= i < ms.len() && 0 <= j < ms.len() && i != j ==> !eq_ignore_case(
            #[trigger] ms[i].name,
            #[trigger] ms[j].name,
        )
}

/// A custom mode that passes the checks made of each mode on its own.
pub open spec fn mode_ok(m: ModeView) -> bool {
    &&& trim(m.name).len() > 0
    &&& trim(m.name) == m.name
    &&& !has_named(builtin_mode_views(), m.name)
    &&& noise_valid(m.noise)
}

pub open spec fn all_ok(ms: Seq<ModeView>) -> bool {
    forall|i: int| 0 <= i < ms.len() ==> mode_ok(#[trigger] ms[i])
}

proof fn lemma_error_free_from(ms: Seq<ModeView>, i: int)
    requires
        0 <= i <= ms.len(),
        first_custom_error(ms, i) is None,
    ensures
        forall|k: int| i <= k < ms.len() ==> #[trigger] custom_mode_error(ms, k) is None,
    decreases ms.len() - i,
{
    if i < ms.len() {
        lemma_error_free_from(ms, i + 1);
    }
}

proof fn lemma_error_free_to(ms: Seq<ModeView>, i: int)
    requires
        0 <= i <= ms.len(),
        all_ok(ms),
        names_distinct(ms),
    ensures
        first_custom_error(ms, i) is None,
    decreases ms.len() - i,
{
    if i < ms.len() {
        lemma_error_free_to(ms, i + 1);
        assert(mode_ok(ms[i]));
        if has_named(ms.take(i), ms[i].name) {
            let j = choose|j: int| 0 <= j < i && eq_ignore_case(#[trigger] ms.take(i)[j].name, ms[i].name);
            assert(ms.take(i)[j] == ms[j]);
        }
    }
}

/// The custom modes pass validation exactly when each passes on its own
/// and no two are named alike.
proof fn lemma_error_free_iff(ms: Seq<ModeView>)
    ensures
        first_custom_error(ms, 0) is None <==> (all_ok(ms) && names_distinct(ms)),
{
    if first_custom_error(ms, 0) is None {
        lemma_error_free_from(ms, 0);
        assert forall|i: int| 0 <= i < ms.len() implies mode_ok(#[trigger] ms[i]) by {
            assert(custom_mode_error(ms, i) is None);
        }
        assert forall|i: int, j: int|
            0 <= i < ms.len() && 0 <= j < ms.len() && i != j implies !eq_ignore_case(
            #[trigger] ms[i].name,
            #[trigger] ms[j].name,
        ) by {
            if i < j {
                assert(custom_mode_error(ms, j) is None);
                assert(ms.take(j)[i] == ms[i]);
                assert(!eq_ignore_case(ms.take(j)[i].name, ms[j].name));
            } else {
                assert(custom_mode_error(ms, i) is None);
                assert(ms.take(i)[j] == ms[j]);
                assert(!eq_ignore_case(ms.take(i)[j].name, ms[i].name));
                if eq_ignore_case(ms[i].name, ms[j].name) {
                    lemma_eq_ignore_case_symmetric(ms[i].name, ms[j].name);
                }
            }
        }
    }
    if all_ok(ms) && names_distinct(ms) {
        lemma_error_free_to(ms, 0);
    }
}


proof fn lemma_update_keeps(ms: Seq<ModeView>, idx: int, m: ModeView)
    requires
        0 <= idx < ms.len(),
        all_ok(ms),
        names_distinct(ms),
        mode_ok(m),
        eq_ignore_case(ms[idx].name, m.name),
    ensures
        all_ok(ms.update(idx, m)),
        names_distinct(ms.update(idx, m)),
{
    let u = ms.update(idx, m);
    assert forall|i: int| 0 <= i < u.len() implies mode_ok(#[trigger] u[i]) by {
        if i != idx {
            assert(u[i] == ms[i]);
        }
    }
    assert forall|i: int, j: int|
        0 <= i < u.len() && 0 <= j < u.len() && i != j implies !eq_ignore_case(
        #[trigger] u[i].name,
        #[trigger] u[j].name,
    ) by {
        if i == idx {
            assert(u[j] == ms[j]);
            if eq_ignore_case(m.name, ms[j].name) {
                lemma_eq_ignore_case_transitive(ms[idx].name, m.name, ms[j].name);
            }
        } else if j == idx {
            assert(u[i] == ms[i]);
            if eq_ignore_case(ms[i].name, m.name) {
                lemma_eq_ignore_case_symmetric(ms[idx].name, m.name);
                lemma_eq_ignore_case_transitive(ms[i].name, m.name, ms[idx].name);
            }
        } else {
            assert(u[i] == ms[i] && u[j] == ms[j]);
        }
    }
}

proof fn lemma_insert_distinct(ms: Seq<ModeView>, m: ModeView)
    requires
        names_distinct(ms),
        !has_named(ms, m.name),
    ensures
        names_distinct(insert_sorted(ms, m)),
    decreases ms.len(),
{
    let r = insert_sorted(ms, m);
    if ms.len() == 0 {
    } else if crate::config::lex_less(m.name, ms[0].name) {
        assert forall|i: int, j: int|
            0 <= i < r.len() && 0 <= j < r.len() && i != j implies !eq_ignore_case(
            #[trigger] r[i].name,
            #[trigger] r[j].name,
        ) by {
            if i == 0 {
                assert(r[j] == ms[j - 1]);
                if eq_ignore_case(m.name, ms[j - 1].name) {
                    lemma_eq_ignore_case_symmetric(m.name, ms[j - 1].name);
                }
            } else if j == 0 {
                assert(r[i] == ms[i - 1]);
            } else {
                assert(r[i] == ms[i - 1] && r[j] == ms[j - 1]);
            }
        }
    } else {
        let d = ms.drop_first();
        assert(names_distinct(d)) by {
            assert forall|i: int, j: int|
                0 <= i < d.len() && 0 <= j < d.len() && i != j implies !eq_ignore_case(
                #[trigger] d[i].name,
                #[trigger] d[j].name,
            ) by {
                assert(d[i] == ms[i + 1] && d[j] == ms[j + 1]);
            }
        }
        assert(!has_named(d, m.name)) by {
            if has_named(d, m.name) {
                let k = choose|k: int| 0 <= k < d.len() && eq_ignore_case(#[trigger] d[k].name, m.name);
                assert(ms[k + 1] == d[k]);
            }
        }
        lemma_insert_distinct(d, m);
        let rd = insert_sorted(d, m);
        lemma_insert_sorted_contents(d, m);
        assert(r == seq![ms[0]] + rd);
        assert forall|k: int| 0 <= k < rd.len() implies !eq_ignore_case(
            ms[0].name,
            #[trigger] rd[k].name,
        ) && !eq_ignore_case(rd[k].name, ms[0].name) by {
            let e = rd[k];
            assert(rd.contains(e));
            if e == m {
                assert(!eq_ignore_case(ms[0].name, m.name));
                if eq_ignore_case(m.name, ms[0].name) {
                    lemma_eq_ignore_case_symmetric(m.name, ms[0].name);
                }
            } else {
                assert(d.contains(e));
                let p = choose|p: int| 0 <= p < d.len() && d[p] == e;
                assert(ms[p + 1] == e);
            }
        }
        assert forall|i: int, j: int|
            0 <= i < r.len() && 0 <= j < r.len() && i != j implies !eq_ignore_case(
            #[trigger] r[i].name,
            #[trigger] r[j].name,
        ) by {
            if i == 0 {
                assert(r[j] == rd[j - 1]);
            } else if j == 0 {
                assert(r[i] == rd[i - 1]);
            } else {
                assert(r[i] == rd[i - 1] && r[j] == rd[j - 1]);
            }
        }
    }
}

proof fn lemma_sort_distinct(ms: Seq<ModeView>)
    requires
        names_distinct(ms),
    ensures
        names_distinct(sort_by_name(ms)),
    decreases ms.len(),
{
    if ms.len() > 0 {
        let d = ms.drop_last();
        assert(names_distinct(d)) by {
            assert forall|i: int, j: int|
                0 <= i < d.len() && 0 <= j < d.len() && i != j implies !eq_ignore_case(
                #[trigger] d[i].name,
                #[trigger] d[j].name,
            ) by {
                assert(d[i] == ms[i] && d[j] == ms[j]);
            }
        }
        lemma_sort_distinct(d);
        let sd = sort_by_name(d);
        lemma_sort_contents(d);
        assert(!has_named(sd, ms.last().name)) by {
            if has_named(sd, ms.last().name) {
                let k = choose|k: int| 0 <= k < sd.len() && eq_ignore_case(
                    #[trigger] sd[k].name,
                    ms.last().name,
                );
                assert(sd.contains(sd[k]));
                assert(d.contains(sd[k]));
                let p = choose|p: int| 0 <= p < d.len() && d[p] == sd[k];
                assert(ms[p] == d[p]);
                assert(ms[ms.len() - 1] == ms.last());
            }
        }
        lemma_insert_distinct(sd, ms.last());
    }
}

proof fn lemma_sorted_all_ok(ms: Seq<ModeView>)
    requires
        all_ok(ms),
    ensures
        all_ok(sort_by_name(ms)),
{
    let s = sort_by_name(ms);
    lemma_sort_contents(ms);
    assert forall|i: int| 0 <= i < s.len() implies mode_ok(#[trigger] s[i]) by {
        assert(s.contains(s[i]));
        assert(ms.contains(s[i]));
        let p = choose|p: int| 0 <= p < ms.len() && ms[p] == s[i];
        assert(mode_ok(ms[p]));
    }
}

proof fn lemma_without_keeps(ms: Seq<ModeView>, name: Seq<char>)
    requires
        all_ok(ms),
        names_distinct(ms),
    ensures
        all_ok(without_named(ms, name)),
        names_distinct(without_named(ms, name)),
        forall|e: ModeView| #[trigger] without_named(ms, name).contains(e) ==> ms.contains(e),
        forall|e: ModeView|
            #[trigger] ms.contains(e) && !eq_ignore_case(e.name, name) ==> without_named(
                ms,
                name,
            ).contains(e),
    decreases ms.len(),
{
    if ms.len() > 0 {
        let d = ms.drop_last();
        let l = ms.last();
        assert(all_ok(d)) by {
            assert forall|i: int| 0 <= i < d.len() implies mode_ok(#[trigger] d[i]) by {
                assert(d[i] == ms[i]);
            }
        }
        assert(names_distinct(d)) by {
            assert forall|i: int, j: int|
                0 <= i < d.len() && 0 <= j < d.len() && i != j implies !eq_ignore_case(
                #[trigger] d[i].name,
                #[trigger] d[j].name,
            ) by {
                assert(d[i] == ms[i] && d[j] == ms[j]);
            }
        }
        lemma_without_keeps(d, name);
        let w = without_named(d, name);
        assert(ms[ms.len() - 1] == l);
        assert forall|e: ModeView| #[trigger] ms.contains(e) && !eq_ignore_case(e.name, name)
            implies without_named(ms, name).contains(e) by {
            let p = choose|p: int| 0 <= p < ms.len() && ms[p] == e;
            if p < d.len() {
                assert(d[p] == e);
                assert(d.contains(e));
                let q = choose|q: int| 0 <= q < w.len() && w[q] == e;
                assert(without_named(ms, name)[q] == e);
            } else {
                assert(without_named(ms, name) == w.push(l));
                assert(without_named(ms, name)[w.len() as int] == e);
            }
        }
        assert forall|e: ModeView| #[trigger] without_named(ms, name).contains(e) implies ms.contains(
            e,
        ) by {
            let q = choose|q: int| 0 <= q < without_named(ms, name).len() && without_named(
                ms,
                name,
            )[q] == e;
            if q < w.len() {
                assert(w[q] == e);
                assert(w.contains(e));
                assert(d.contains(e));
                let p = choose|p: int| 0 <= p < d.len() && d[p] == e;
                assert(ms[p] == e);
            }
        }
        if !eq_ignore_case(l.name, name) {
            let r = w.push(l);
            assert forall|k: int| 0 <= k < w.len() implies !eq_ignore_case(
                #[trigger] w[k].name,
                l.name,
            ) && !eq_ignore_case(l.name, w[k].name) by {
                assert(w.contains(w[k]));
                assert(d.contains(w[k]));
                let p = choose|p: int| 0 <= p < d.len() && d[p] == w[k];
                assert(ms[p] == w[k]);
            }
            assert forall|i: int| 0 <= i < r.len() implies mode_ok(#[trigger] r[i]) by {
                if i < w.len() {
                    assert(r[i] == w[i]);
                }
            }
            assert forall|i: int, j: int|
                0 <= i < r.len() && 0 <= j < r.len() && i != j implies !eq_ignore_case(
                #[trigger] r[i].name,
                #[trigger] r[j].name,
            ) by {
                if i < w.len() && j < w.len() {
                    assert(r[i] == w[i] && r[j] == w[j]);
                } else if i < w.len() {
                    assert(r[i] == w[i]);
                } else {
                    assert(r[j] == w[j]);
                }
            }
        }
    }
}


/// The built-in presets pass the checks made of each mode's name and noise.
proof fn lemma_builtins_ok()
    ensures
        forall|k: int|
            0 <= k < builtin_mode_views().len() ==> trim(#[trigger] builtin_mode_views()[k].name)
                == builtin_mode_views()[k].name && builtin_mode_views()[k].name.len() > 0
                && noise_valid(builtin_mode_views()[k].noise),
{
    reveal_strlit("Quiet");
    reveal_strlit("Aware");
    reveal_strlit("Immersion");
    reveal_strlit("Cinema");
    let b = builtin_mode_views();
    assert forall|k: int| 0 <= k < b.len() implies trim(#[trigger] b[k].name) == b[k].name
        && b[k].name.len() > 0 && noise_valid(b[k].noise) by {
        let n = b[k].name;
        assert(!is_whitespace(n[0]) && !is_whitespace(n.last()));
        lemma_trim_unchanged(n);
    }
}

/// The active mode passes validation: it is not blank and names a mode.
pub open spec fn active_ok(c: ConfigView) -> bool {
    match c.active_mode {
        None => true,
        Some(a) => trim(a).len() > 0 && find_named(all_mode_views(c), a) is Some,
    }
}

proof fn lemma_valid_iff(c: ConfigView)
    ensures
        config_valid(c) <==> (noise_valid(c.noise) && eq_valid(c.eq) && c.custom_modes.len() <= 7
            && all_ok(c.custom_modes) && names_distinct(c.custom_modes) && active_ok(c)),
{
    lemma_error_free_iff(c.custom_modes);
}

/// A name that some mode carries is found by looking it up.
proof fn lemma_found_by_member(ms: Seq<ModeView>, k: int, name: Seq<char>)
    requires
        0 <= k < ms.len(),
        eq_ignore_case(ms[k].name, name),
    ensures
        find_named(ms, name) is Some,
{
    lemma_find_named_some(ms, name);
}

/// A mode of the configuration has a usable name and a valid noise setting.
proof fn lemma_member_ok(c: ConfigView, k: int)
    requires
        0 <= k < all_mode_views(c).len(),
        all_ok(c.custom_modes),
    ensures
        trim(all_mode_views(c)[k].name).len() > 0,
        noise_valid(all_mode_views(c)[k].noise),
{
    lemma_builtins_ok();
    let b = builtin_mode_views();
    if k < b.len() {
        assert(all_mode_views(c)[k] == b[k]);
    } else {
        assert(all_mode_views(c)[k] == c.custom_modes[k - b.len()]);
        assert(mode_ok(c.custom_modes[k - b.len()]));
    }
}

/// Adding or replacing a custom mode with a trimmed, non-blank name and a
/// valid noise setting keeps a valid configuration valid.
pub proof fn lemma_upsert_keeps_valid(c: ConfigView, m: ModeView)
    requires
        config_valid(c),
        trim(m.name) == m.name,
        m.name.len() > 0,
        noise_valid(m.noise),
        upsert_outcome(c, m) is Ok,
    ensures
        config_valid(upsert_outcome(c, m)->Ok_0),
{
    let c2 = upsert_outcome(c, m)->Ok_0;
    let ms = c.custom_modes;
    lemma_valid_iff(c);
    lemma_valid_iff(c2);
    lemma_upsert_respects_limit(c, m);
    assert(mode_ok(m));
    let b = builtin_mode_views();
    if has_named(ms, m.name) {
        let idx = first_named_index(ms, m.name);
        lemma_first_named_index_props(ms, m.name);
        lemma_update_keeps(ms, idx, m);
        match c.active_mode {
            None => {},
            Some(a) => {
                lemma_find_named_some(all_mode_views(c), a);
                let k = choose|k: int| 0 <= k < all_mode_views(c).len() && eq_ignore_case(
                    #[trigger] all_mode_views(c)[k].name,
                    a,
                );
                if k >= b.len() && k - b.len() == idx {
                    assert(all_mode_views(c)[k] == ms[idx]);
                    lemma_eq_ignore_case_symmetric(ms[idx].name, m.name);
                    lemma_eq_ignore_case_transitive(m.name, ms[idx].name, a);
                    assert(all_mode_views(c2)[k] == m);
                } else if k >= b.len() {
                    assert(all_mode_views(c2)[k] == all_mode_views(c)[k]);
                } else {
                    assert(all_mode_views(c2)[k] == all_mode_views(c)[k]);
                }
                lemma_found_by_member(all_mode_views(c2), k, a);
            },
        }
    } else {
        let pushed = ms.push(m);
        assert(all_ok(pushed)) by {
            assert forall|i: int| 0 <= i < pushed.len() implies mode_ok(#[trigger] pushed[i]) by {
                if i < ms.len() {
                    assert(pushed[i] == ms[i]);
                }
            }
        }
        assert(names_distinct(pushed)) by {
            assert forall|i: int, j: int|
                0 <= i < pushed.len() && 0 <= j < pushed.len() && i != j implies !eq_ignore_case(
                #[trigger] pushed[i].name,
                #[trigger] pushed[j].name,
            ) by {
                if i < ms.len() && j < ms.len() {
                    assert(pushed[i] == ms[i] && pushed[j] == ms[j]);
                } else if i < ms.len() {
                    assert(pushed[i] == ms[i] && pushed[j] == m);
                } else {
                    assert(pushed[j] == ms[j] && pushed[i] == m);
                    if eq_ignore_case(m.name, ms[j].name) {
                        lemma_eq_ignore_case_symmetric(m.name, ms[j].name);
                    }
                }
            }
        }
        lemma_sort_distinct(pushed);
        lemma_sorted_all_ok(pushed);
        lemma_sort_contents(pushed);
        match c.active_mode {
            None => {},
            Some(a) => {
                lemma_find_named_some(all_mode_views(c), a);
                let k = choose|k: int| 0 <= k < all_mode_views(c).len() && eq_ignore_case(
                    #[trigger] all_mode_views(c)[k].name,
                    a,
                );
                if k >= b.len() {
                    let e = ms[k - b.len()];
                    assert(all_mode_views(c)[k] == e);
                    assert(pushed[k - b.len()] == e);
                    assert(pushed.contains(e));
                    let sorted = sort_by_name(pushed);
                    assert(sorted.contains(e));
                    let q = choose|q: int| 0 <= q < sorted.len() && sorted[q] == e;
                    assert(all_mode_views(c2)[b.len() + q] == e);
                    lemma_found_by_member(all_mode_views(c2), b.len() + q, a);
                } else {
                    assert(all_mode_views(c2)[k] == all_mode_views(c)[k]);
                    lemma_found_by_member(all_mode_views(c2), k, a);
                }
            },
        }
    }
}


/// Removing the custom modes of a name, and clearing the active mode when it
/// is that name, keeps a valid configuration valid.
pub proof fn lemma_remove_keeps_valid(c: ConfigView, name: Seq<char>)
    requires
        config_valid(c),
    ensures
        config_valid(
            ConfigView {
                custom_modes: without_named(c.custom_modes, name),
                active_mode: match c.active_mode {
                    Some(a) => if eq_ignore_case(a, name) {
                        None
                    } else {
                        Some(a)
                    },
                    None => None,
                },
                ..c
            },
        ),
{
    let c2 = ConfigView {
        custom_modes: without_named(c.custom_modes, name),
        active_mode: match c.active_mode {
            Some(a) => if eq_ignore_case(a, name) {
                None
            } else {
                Some(a)
            },
            None => None,
        },
        ..c
    };
    let ms = c.custom_modes;
    let b = builtin_mode_views();
    lemma_valid_iff(c);
    lemma_valid_iff(c2);
    lemma_without_keeps(ms, name);
    crate::config::lemma_without_named_len(ms, name);
    match c2.active_mode {
        None => {},
        Some(a) => {
            assert(!eq_ignore_case(a, name));
            lemma_find_named_some(all_mode_views(c), a);
            let k = choose|k: int| 0 <= k < all_mode_views(c).len() && eq_ignore_case(
                #[trigger] all_mode_views(c)[k].name,
                a,
            );
            if k >= b.len() {
                let e = ms[k - b.len()];
                assert(all_mode_views(c)[k] == e);
                assert(ms.contains(e));
                if eq_ignore_case(e.name, name) {
                    lemma_eq_ignore_case_symmetric(e.name, a);
                    lemma_eq_ignore_case_transitive(a, e.name, name);
                }
                let w = without_named(ms, name);
                assert(w.contains(e));
                let q = choose|q: int| 0 <= q < w.len() && w[q] == e;
                assert(all_mode_views(c2)[b.len() + q] == e);
                lemma_found_by_member(all_mode_views(c2), b.len() + q, a);
            } else {
                assert(all_mode_views(c2)[k] == all_mode_views(c)[k]);
                lemma_found_by_member(all_mode_views(c2), k, a);
            }
        },
    }
}

/// New audio settings, with the active mode following them, keep a valid
/// configuration valid when the noise setting is valid.
pub proof fn lemma_audio_change_keeps_valid(
    c: ConfigView,
    noise: crate::domain::NoiseControl,
    immersive: crate::domain::ImmersiveAudio,
)
    requires
        config_valid(c),
        noise_valid(noise),
    ensures
        config_valid(
            ConfigView {
                noise,
                immersive,
                active_mode: first_with_audio(all_mode_views(c), noise, immersive),
                ..c
            },
        ),
{
    let c2 = ConfigView {
        noise,
        immersive,
        active_mode: first_with_audio(all_mode_views(c), noise, immersive),
        ..c
    };
    lemma_valid_iff(c);
    lemma_valid_iff(c2);
    let all = all_mode_views(c);
    assert(all_mode_views(c2) == all);
    match first_with_audio(all, noise, immersive) {
        None => {},
        Some(n) => {
            lemma_active_mode_matches(all, noise, immersive);
            let k = choose|k: int|
                0 <= k < all.len() && #[trigger] all[k].name == n && all[k].noise == noise
                    && all[k].immersive == immersive;
            lemma_member_ok(c, k);
            assert(eq_ignore_case(all[k].name, n));
            lemma_found_by_member(all, k, n);
        },
    }
}

/// Applying a mode of the configuration keeps a valid configuration valid.
pub proof fn lemma_mode_switch_keeps_valid(c: ConfigView, m: ModeView)
    requires
        config_valid(c),
        all_mode_views(c).contains(m),
    ensures
        config_valid(ConfigView { active_mode: Some(m.name), noise: m.noise, immersive: m.immersive, ..c }),
{
    let c2 = ConfigView { active_mode: Some(m.name), noise: m.noise, immersive: m.immersive, ..c };
    lemma_valid_iff(c);
    lemma_valid_iff(c2);
    let all = all_mode_views(c);
    let k = choose|k: int| 0 <= k < all.len() && all[k] == m;
    lemma_member_ok(c, k);
    assert(eq_ignore_case(all[k].name, m.name));
    assert(all_mode_views(c2) == all);
    lemma_found_by_member(all, k, m.name);
}


/// Every configuration command that succeeds turns a valid configuration
/// into a valid one, so the file it saves can be loaded again.
pub proof fn lemma_commands_keep_config_valid(c: ConfigView)
    requires
        config_valid(c),
    ensures
        forall|name: Seq<char>| #[trigger] mode_set_pre(c, name) is Ok ==> config_valid(
            mode_set_pre(c, name)->Ok_0,
        ),
        forall|name: Seq<char>, e: Option<bool>, l: Option<u8>, i: Option<ImmersiveValue>|
            #[trigger] mode_add_pre(c, name, e, l, i) is Ok ==> config_valid(
                mode_add_pre(c, name, e, l, i)->Ok_0,
            ),
        forall|name: Seq<char>| #[trigger] mode_remove_pre(c, name) is Ok ==> config_valid(
            mode_remove_pre(c, name)->Ok_0,
        ),
        forall|e: bool, l: u8| #[trigger] noise_set_pre(c, e, l) is Ok ==> config_valid(
            noise_set_pre(c, e, l)->Ok_0,
        ),
        forall|v: ImmersiveValue| #[trigger] immersive_set_pre(c, v) is Ok ==> config_valid(
            immersive_set_pre(c, v)->Ok_0,
        ),
        forall|b: i8, m: i8, t: i8| #[trigger] eq_set_pre(c, b, m, t) is Ok ==> config_valid(
            eq_set_pre(c, b, m, t)->Ok_0,
        ),
{
    assert forall|name: Seq<char>| #[trigger] mode_set_pre(c, name) is Ok implies config_valid(
        mode_set_pre(c, name)->Ok_0,
    ) by {
        lemma_find_named_some(all_mode_views(c), name);
        let m = find_named(all_mode_views(c), name)->Some_0;
        lemma_mode_switch_keeps_valid(c, m);
    }
    assert forall|name: Seq<char>, e: Option<bool>, l: Option<u8>, i: Option<ImmersiveValue>|
        #[trigger] mode_add_pre(c, name, e, l, i) is Ok implies config_valid(
        mode_add_pre(c, name, e, l, i)->Ok_0,
    ) by {
        let en = match e {
            Some(b) => b,
            None => c.noise.enabled,
        };
        let lv = match l {
            Some(x) => x,
            None => c.noise.level,
        };
        let im = match i {
            Some(v) => immersive_of(v),
            None => c.immersive,
        };
        let m = ModeView {
            name: trim(name),
            noise: crate::domain::NoiseControl { enabled: en, level: lv },
            immersive: im,
        };
        lemma_trim_idempotent(name);
        lemma_upsert_keeps_valid(c, m);
    }
    assert forall|name: Seq<char>| #[trigger] mode_remove_pre(c, name) is Ok implies config_valid(
        mode_remove_pre(c, name)->Ok_0,
    ) by {
        lemma_remove_keeps_valid(c, name);
    }
    assert forall|e: bool, l: u8| #[trigger] noise_set_pre(c, e, l) is Ok implies config_valid(
        noise_set_pre(c, e, l)->Ok_0,
    ) by {
        lemma_audio_change_keeps_valid(c, crate::domain::NoiseControl { enabled: e, level: l }, c.immersive);
    }
    assert forall|v: ImmersiveValue| #[trigger] immersive_set_pre(c, v) is Ok implies config_valid(
        immersive_set_pre(c, v)->Ok_0,
    ) by {
        lemma_valid_iff(c);
        lemma_audio_change_keeps_valid(c, c.noise, immersive_of(v));
    }
    assert forall|b: i8, m: i8, t: i8| #[trigger] eq_set_pre(c, b, m, t) is Ok implies config_valid(
        eq_set_pre(c, b, m, t)->Ok_0,
    ) by {
        let c2 = eq_set_pre(c, b, m, t)->Ok_0;
        lemma_valid_iff(c);
        lemma_valid_iff(c2);
        assert(all_mode_views(c2) == all_mode_views(c));
    }
}


/// The configuration a save-then-sync step leaves: the edited one or, when
/// the save or the sync failed, the previous one.
proof fn lemma_commit_result<
    Sv: Fn(&ConfigFile) -> Result<(), String>,
    Sy: Fn(&ConfigFile) -> Result<(), String>,
>(pre: App<Sv, Sy>, previous: ConfigFile, success: Seq<char>, r: bool, post: App<Sv, Sy>)
    requires
        committed_and_synced(pre, previous, success, r, post),
    ensures
        post.config@ == pre.config@ || post.config@ == previous@,
{
    let (mid, ok) = choose|mid: App<Sv, Sy>, ok: bool|
        #[trigger] after_commit(pre, previous, success, r, post, mid, ok);
    let saved = choose|saved: Result<(), String>| #[trigger]
        commit_outcome(pre, previous, success, ok, mid, saved);
    if ok && pre.config.selected_device is Some {
        let synced = choose|synced: Result<(), String>| #[trigger]
            after_sync(pre, previous, success, r, post, mid, synced);
        if synced is Err {
            let (rs, ry) = choose|rs: Result<(), String>, ry: Result<(), String>| #[trigger]
                after_rollback(pre, previous, r, post, synced->Err_0@, rs, ry);
        }
    }
}

proof fn lemma_noise_persist_keeps_valid<
    Sv: Fn(&ConfigFile) -> Result<(), String>,
    Sy: Fn(&ConfigFile) -> Result<(), String>,
>(a: App<Sv, Sy>, b: App<Sv, Sy>)
    requires
        persisted_noise(a, b),
        config_valid(a.config@),
    ensures
        config_valid(b.config@),
{
    if a.noise_level <= 10 {
        let n = crate::domain::NoiseControl { enabled: a.noise_enabled, level: a.noise_level };
        let (pre, previous, r) = choose|pre: App<Sv, Sy>, previous: ConfigFile, r: bool|
            #[trigger] committed_and_synced(
                pre,
                previous,
                "Saved noise: enabled="@ + bool_text(a.noise_enabled) + " level="@ + decimal(
                    a.noise_level as nat,
                ),
                r,
                b,
            ) && previous@ == a.config@ && pre.config@ == (ConfigView {
                noise: n,
                active_mode: first_with_audio(all_mode_views(a.config@), n, a.config@.immersive),
                ..a.config@
            }) && same_frame(a, pre) && pre.selected == a.selected && pre.saved == a.saved
                && pre.noise_enabled == a.noise_enabled && pre.noise_level == a.noise_level;
        lemma_commit_result(
            pre,
            previous,
            "Saved noise: enabled="@ + bool_text(a.noise_enabled) + " level="@ + decimal(
                a.noise_level as nat,
            ),
            r,
            b,
        );
        lemma_audio_change_keeps_valid(a.config@, n, a.config@.immersive);
    }
}

/// Whatever key is pressed in the UI, a valid configuration stays valid: a
/// change either goes through whole or leaves the previous configuration.
pub proof fn lemma_keys_keep_config_valid<
    Sv: Fn(&ConfigFile) -> Result<(), String>,
    Sy: Fn(&ConfigFile) -> Result<(), String>,
>(a: App<Sv, Sy>, key: Key, b: App<Sv, Sy>)
    requires
        key_step(a, key, b),
        config_valid(a.config@),
    ensures
        config_valid(b.config@),
{
    if !is_quit(key) && !is_back(key) && !is_up(key) && !is_down(key) {
        if key.code == KeyCode::Enter {
            match a.screen {
                Screen::Devices => {
                    if a.selected < a.devices@.len() {
                        let (pre, mid, ok) = choose|pre: App<Sv, Sy>, mid: App<Sv, Sy>, ok: bool|
                            #[trigger] device_entered(a, pre, mid, ok, b);
                        let previous = choose|previous: ConfigFile|
                            previous@ == a.config@ && committed(
                                pre,
                                previous,
                                "Selected device saved to config."@,
                                ok,
                                mid,
                            );
                        let saved = choose|saved: Result<(), String>| #[trigger]
                            commit_outcome(
                                pre,
                                previous,
                                "Selected device saved to config."@,
                                ok,
                                mid,
                                saved,
                            );
                        lemma_valid_iff(a.config@);
                        lemma_valid_iff(pre.config@);
                        assert(all_mode_views(pre.config@) == all_mode_views(a.config@));
                    }
                },
                Screen::Modes => {
                    let ms = all_mode_views(a.config@);
                    if a.selected < ms.len() {
                        let m = ms[a.selected as int];
                        let (pre, previous, r) = choose|
                            pre: App<Sv, Sy>,
                            previous: ConfigFile,
                            r: bool,
                        |
                            #[trigger] committed_and_synced(pre, previous, "Saved mode: "@ + m.name, r, b)
                                && previous@ == a.config@ && pre.config@ == (ConfigView {
                                active_mode: Some(m.name),
                                noise: m.noise,
                                immersive: m.immersive,
                                ..a.config@
                            }) && controls_match(pre) && same_frame(a, pre) && pre.selected
                                == a.selected && pre.saved == a.saved;
                        lemma_commit_result(pre, previous, "Saved mode: "@ + m.name, r, b);
                        assert(ms.contains(m));
                        lemma_mode_switch_keeps_valid(a.config@, m);
                    }
                },
                Screen::Immersive => {
                    let im = immersive_for(a.selected);
                    let (pre, previous, r) = choose|pre: App<Sv, Sy>, previous: ConfigFile, r: bool|
                        #[trigger] committed_and_synced(
                            pre,
                            previous,
                            "Saved immersive audio: "@ + immersive_text(im),
                            r,
                            b,
                        ) && previous@ == a.config@ && pre.config@ == (ConfigView {
                            immersive: im,
                            active_mode: first_with_audio(
                                all_mode_views(a.config@),
                                a.config@.noise,
                                im,
                            ),
                            ..a.config@
                        }) && same_frame(a, pre) && pre.selected == a.selected && pre.saved
                            == a.saved && pre.noise_enabled == a.noise_enabled && pre.noise_level
                            == a.noise_level;
                    lemma_commit_result(
                        pre,
                        previous,
                        "Saved immersive audio: "@ + immersive_text(im),
                        r,
                        b,
                    );
                    lemma_valid_iff(a.config@);
                    lemma_audio_change_keeps_valid(a.config@, a.config@.noise, im);
                },
                _ => {},
            }
        } else if key.code == KeyCode::Char(' ') {
            if a.screen == Screen::Noise {
                lemma_noise_persist_keeps_valid(App { noise_enabled: !a.noise_enabled, ..a }, b);
            }
        } else if is_adjust(key) {
            if a.screen == Screen::Noise {
                lemma_noise_persist_keeps_valid(
                    App { noise_level: stepped_level(a.noise_level, adjust_up(key)), ..a },
                    b,
                );
            }
        }
    }
}

} // verus!
