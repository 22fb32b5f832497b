//! Properties of the library that span several functions or hold of every
//! state.
use vstd::prelude::*;
use crate::commands::listed_tabs;
use crate::pool::{evicts, PoolView, LRU_THRESHOLD};
use crate::text::{
    all_digits, digits_value, escape_quotes, field_end, first_field, i32_decimal, is_digit,
    nat_decimal, spec_find, spec_parse_i32, starts_with,
};
use crate::toolbar::{after_commands, after_tab_commands, is_app_page, url_param, without_tab};

verus! {

/// After a webview is embedded and the pool evicts, the background tabs
/// (all but the active one) keep as many webviews as before, but never
/// more than `LRU_THRESHOLD`.
pub proof fn law_background_webviews_bounded(pre: PoolView, post: PoolView, gone: Seq<i32>)
    requires
        evicts(pre, post, gone),
    ensures
        post.background().len() == if pre.background().len() <= LRU_THRESHOLD {
            pre.background().len()
        } else {
            LRU_THRESHOLD as nat
        },
{
    if pre.background().len() <= LRU_THRESHOLD {
        assert(post.background() =~= pre.background());
    }
}

proof fn lemma_nat_decimal(m: nat)
    ensures
        nat_decimal(m).len() >= 1,
        all_digits(nat_decimal(m)),
        digits_value(nat_decimal(m)) == m,
    decreases m,
{
    if m < 10 {
        assert(nat_decimal(m).drop_last() =~= Seq::<char>::empty());
        assert(nat_decimal(m).last() as int == m + 48);
        assert(digits_value(Seq::<char>::empty()) == 0);
        assert(digits_value(nat_decimal(m)) == digits_value(nat_decimal(m).drop_last()) * 10 + (nat_decimal(m).last() as int - 48));
    } else {
        lemma_nat_decimal(m / 10);
        let s = nat_decimal(m);
        assert(s.drop_last() =~= nat_decimal(m / 10));
        assert(s.last() as int == m % 10 + 48);
        assert(m == (m / 10) * 10 + m % 10) by (nonlinear_arith);
        assert(digits_value(s) == digits_value(s.drop_last()) * 10 + (s.last() as int - 48));
        assert(digits_value(s.drop_last()) == m / 10);
        assert forall|i: int| 0 <= i < s.len() implies is_digit(#[trigger] s[i]) by {
            if i < s.len() - 1 {
                assert(s[i] == nat_decimal(m / 10)[i]);
            }
        }
    }
}

/// An id written in decimal reads back as the same id: the ids that the
/// toolbar receives in JSON and sends back in its command URLs survive the
/// trip.
pub proof fn law_id_round_trip(n: i32)
    ensures
        spec_parse_i32(i32_decimal(n)) == Some(n),
{
    if n < 0 {
        let m = (-n) as nat;
        lemma_nat_decimal(m);
        assert(i32_decimal(n).drop_first() =~= nat_decimal(m));
    } else {
        lemma_nat_decimal(n as nat);
        assert(is_digit(nat_decimal(n as nat)[0]));
    }
}

proof fn lemma_field_end_at(s: Seq<char>, c: char, i: int, j: int)
    requires
        0 <= i <= j <= s.len(),
        forall|k: int| i <= k < j ==> s[k] != c,
        j == s.len() || s[j] == c,
    ensures
        field_end(s, c, i) == j,
    decreases j - i,
{
    if i < j {
        lemma_field_end_at(s, c, i + 1, j);
    }
}

/// A command URL that carries `key` followed by id `n` (and then nothing,
/// or further `&`-separated parameters) yields `n` back.
pub proof fn law_command_id_round_trip(prefix: Seq<char>, key: Seq<char>, n: i32, tail: Seq<char>)
    requires
        spec_find(prefix + key + i32_decimal(n) + tail, key) == Some(prefix.len() as int),
        tail.len() == 0 || tail[0] == '&',
    ensures
        url_param(prefix + key + i32_decimal(n) + tail, key) == Some(n),
{
    let url = prefix + key + i32_decimal(n) + tail;
    let d = i32_decimal(n);
    let rest = url.skip((prefix.len() + key.len()) as int);
    assert(rest =~= d + tail);
    law_id_round_trip(n);
    if n < 0 {
        lemma_nat_decimal((-n) as nat);
    } else {
        lemma_nat_decimal(n as nat);
    }
    assert forall|k: int| 0 <= k < d.len() implies rest[k] != '&' by {
        if n < 0 && k > 0 {
            assert(d[k] == nat_decimal((-n) as nat)[k - 1]);
            assert(is_digit(nat_decimal((-n) as nat)[k - 1]));
        } else if n >= 0 {
            assert(is_digit(nat_decimal(n as nat)[k]));
        }
    }
    lemma_field_end_at(rest, '&', 0, d.len() as int);
    assert(first_field(rest) =~= d);
}

/// In text escaped for a single-quoted script string, every `'` comes
/// right after a backslash.
pub proof fn law_escaped_quotes(s: Seq<char>)
    ensures
        forall|i: int|
            0 <= i < escape_quotes(s).len() && #[trigger] escape_quotes(s)[i] == '\'' ==> i > 0 && escape_quotes(s)[i - 1] == '\\',
    decreases s.len(),
{
    if s.len() > 0 {
        law_escaped_quotes(s.drop_last());
        let e = escape_quotes(s);
        let p = escape_quotes(s.drop_last());
        assert forall|i: int| 0 <= i < e.len() && #[trigger] e[i] == '\'' implies i > 0 && e[i - 1] == '\\' by {
            if i < p.len() {
                assert(e[i] == p[i]);
                assert(p[i] == '\'');
                assert(e[i - 1] == p[i - 1]);
            }
        }
    }
}

proof fn lemma_listed_tabs_known(lru: Seq<i32>, urls: Map<i32, Seq<char>>, i: int)
    requires
        0 <= i < listed_tabs(lru, urls).len(),
    ensures
        urls.contains_key(listed_tabs(lru, urls)[i].0),
    decreases lru.len(),
{
    if lru.len() > 0 {
        let rest = listed_tabs(lru.drop_last(), urls);
        if i < rest.len() {
            lemma_listed_tabs_known(lru.drop_last(), urls, i);
            if urls.contains_key(lru.last()) {
                assert(listed_tabs(lru, urls)[i] == rest[i]);
            }
        }
    }
}

/// A tab closed from the toolbar is no longer listed in it.
pub proof fn law_closed_tab_unlisted(v: PoolView, id: i32)
    ensures
        forall|i: int|
            0 <= i < listed_tabs(without_tab(v, id).lru, without_tab(v, id).urls).len() ==> (#[trigger] listed_tabs(
                without_tab(v, id).lru,
                without_tab(v, id).urls,
            )[i]).0 != id,
{
    let w = without_tab(v, id);
    assert forall|i: int| 0 <= i < listed_tabs(w.lru, w.urls).len() implies (#[trigger] listed_tabs(w.lru, w.urls)[i]).0 != id by {
        lemma_listed_tabs_known(w.lru, w.urls, i);
    }
}

/// Closing a tab from the toolbar leaves the active tab alone unless the
/// closed tab was the active one; then the most recently used tab left (if
/// any) becomes active. Only the closed tab leaves the LRU order and the
/// URLs.
pub proof fn law_toolbar_close_keeps_other_active(v: PoolView, id: i32)
    ensures
        v.active != Some(id) ==> without_tab(v, id).active == v.active,
        v.active == Some(id) ==> without_tab(v, id).active != Some(id),
        !without_tab(v, id).urls.contains_key(id),
        forall|k: i32| k != id ==> (#[trigger] without_tab(v, id).urls.contains_key(k) <==> v.urls.contains_key(k)),
{
    let lru = crate::order::without(v.lru, set![id]);
    if v.active == Some(id) && lru.len() > 0 {
        crate::order::lemma_without_contains(v.lru, set![id], lru.last());
        assert(lru.contains(lru.last()));
    }
}

/// A blank-page URL that only closes a background tab leaves the active
/// tab unchanged.
pub proof fn law_close_command_keeps_active(v: PoolView, url: Seq<char>, next: i32, id: i32)
    requires
        spec_find(url, "__mb_new="@) is None,
        url_param(url, "__mb_close="@) == Some(id),
        url_param(url, "__mb_switch="@) is None,
        v.active != Some(id),
    ensures
        after_commands(v, url, next).active == v.active,
{
}

/// The switch command only changes which tab is active: the LRU order (the
/// order the toolbar lists tabs in) and the URLs stay as the other commands
/// left them, and the switched-to tab is active.
pub proof fn law_switch_changes_only_active(v: PoolView, url: Seq<char>, next: i32)
    ensures
        after_commands(v, url, next).lru == after_tab_commands(v, url, next).lru,
        after_commands(v, url, next).urls == after_tab_commands(v, url, next).urls,
        after_commands(v, url, next).webviews == after_tab_commands(v, url, next).webviews,
        after_commands(v, url, next).devtools == after_tab_commands(v, url, next).devtools,
        url_param(url, "__mb_switch="@) matches Some(w) ==> after_commands(v, url, next).active == Some(w),
        url_param(url, "__mb_switch="@) is None ==> after_commands(v, url, next) == after_tab_commands(v, url, next),
{
}

/// The toolbar leaves alone exactly the application's own pages, those
/// under `http://localhost` or `tauri://`; every other page gets the
/// toolbar.
pub proof fn law_only_app_pages_skipped(u: Seq<char>)
    ensures
        is_app_page(u) ==> starts_with(u, "http://localhost"@) || starts_with(u, "tauri://"@),
        starts_with(u, "http://localhost"@) || starts_with(u, "tauri://"@) ==> is_app_page(u),
{
}

/// Text without single quotes is left as it is by quoting.
pub proof fn law_escape_keeps_quote_free_text(s: Seq<char>)
    requires
        !s.contains('\''),
    ensures
        escape_quotes(s) == s,
    decreases s.len(),
{
    if s.len() > 0 {
        assert(!s.drop_last().contains('\'')) by {
            if s.drop_last().contains('\'') {
                let i = choose|i: int| 0 <= i < s.drop_last().len() && s.drop_last()[i] == '\'';
                assert(s[i] == '\'');
            }
        }
        law_escape_keeps_quote_free_text(s.drop_last());
        assert(s[s.len() - 1] != '\'');
        assert(s.drop_last().push(s.last()) =~= s);
    }
}

/// Quoting works character by character: quoting `a + b` quotes `a` and
/// `b` apart, and each quote becomes a backslash and a quote.
pub proof fn law_escape_concat(a: Seq<char>, b: Seq<char>)
    ensures
        escape_quotes(a + b) == escape_quotes(a) + escape_quotes(b),
        escape_quotes(seq!['\'']) == seq!['\\', '\''],
    decreases b.len(),
{
    if b.len() == 0 {
        assert(a + b =~= a);
        assert(escape_quotes(b) =~= Seq::<char>::empty());
        assert(escape_quotes(a) + escape_quotes(b) =~= escape_quotes(a));
    } else {
        law_escape_concat(a, b.drop_last());
        assert((a + b).drop_last() =~= a + b.drop_last());
        assert((a + b).last() == b.last());
        let tail = if b.last() == '\'' { seq!['\\', '\''] } else { seq![b.last()] };
        assert(escape_quotes(a) + escape_quotes(b.drop_last()) + tail =~= escape_quotes(a) + (escape_quotes(b.drop_last()) + tail));
    }
    assert(seq!['\''].drop_last() =~= Seq::<char>::empty());
    assert(escape_quotes(Seq::<char>::empty()) + seq!['\\', '\''] =~= seq!['\\', '\'']);
}

/// Every tab of the LRU order that has a URL is listed with that URL.
pub proof fn law_listed_tabs_complete(lru: Seq<i32>, urls: Map<i32, Seq<char>>, i: int)
    requires
        0 <= i < lru.len(),
        urls.contains_key(lru[i]),
    ensures
        listed_tabs(lru, urls).contains((lru[i], urls[lru[i]])),
    decreases lru.len(),
{
    let rest = listed_tabs(lru.drop_last(), urls);
    if i == lru.len() - 1 {
        assert(listed_tabs(lru, urls)[rest.len() as int] == (lru[i], urls[lru[i]]));
    } else {
        assert(lru.drop_last()[i] == lru[i]);
        law_listed_tabs_complete(lru.drop_last(), urls, i);
        let j = choose|j: int| 0 <= j < rest.len() && rest[j] == (lru[i], urls[lru[i]]);
        assert(listed_tabs(lru, urls)[j] == rest[j]);
    }
}

/// Every listed tab is in the LRU order, with its recorded URL.
pub proof fn law_listed_tabs_sound(lru: Seq<i32>, urls: Map<i32, Seq<char>>, j: int)
    requires
        0 <= j < listed_tabs(lru, urls).len(),
    ensures
        lru.contains(listed_tabs(lru, urls)[j].0),
        urls.contains_key(listed_tabs(lru, urls)[j].0),
        urls[listed_tabs(lru, urls)[j].0] == listed_tabs(lru, urls)[j].1,
    decreases lru.len(),
{
    let rest = listed_tabs(lru.drop_last(), urls);
    if j < rest.len() {
        law_listed_tabs_sound(lru.drop_last(), urls, j);
        assert(listed_tabs(lru, urls)[j] == rest[j]);
        let k = choose|k: int| 0 <= k < lru.drop_last().len() && lru.drop_last()[k] == rest[j].0;
        assert(lru[k] == rest[j].0);
    } else {
        assert(lru[lru.len() - 1] == lru.last());
    }
}

} // verus!
