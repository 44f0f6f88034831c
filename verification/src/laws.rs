//! Properties of the library as a whole: what it accepts as video IDs and
//! channels, what it leaves unchanged, and how many results it returns.
use vstd::prelude::*;
use crate::api::channel::{ChannelInputView, channel_input_of, handle_prefix_len, is_handle_end};
use crate::api::channel::{
    action_items, action_videos_fn, browse_initial_page, channel_search_result_ok,
    channel_search_videos, continuation_page, grid_video_fn, grid_videos, search_item_fn,
    search_section_fn, search_tab_fn, tab_sections,
};
use crate::api::search::{search_videos, video_of};
use crate::cache::channel_id_file;
use crate::model::{ChannelVideosResult, VideoSummaryView, summaries_view};
use crate::seqs::{flat_map, lemma_flat_map_forall, lemma_take_at_most_forall, take_at_most};
use crate::api::transcript::{CaptionTrackView, chosen_track, decoded_entities, first_index, manual_match, exact_match, prefix_match};
use crate::cli::{ChannelSort, DurationFilter, SortOrder, channel_sort_name, duration_filter_name, sort_order_name};
use crate::cache::key_data;
use crate::json::str_at;
use crate::output::{caption_lines, video_detail_text};
use crate::model::VideoDetail;
use crate::seqs::{lemma_flat_map_contains, lemma_last_some_spec, last_some};
use crate::commands::video_id_of;
use crate::json::JsonValue;
use crate::text::{
    all_ascii, ascii_lowercase, trim_start_char,
    all_id_chars, contains, find, find_from, id_prefix, id_prefix_len, is_id_char,
    is_whitespace, lemma_find_spec, matches_at, replace_all, starts_with, trim, trim_end,
    trim_start, utf8_len,
};

verus! {

proof fn lemma_no_ws_trim(s: Seq<char>)
    requires
        s.len() > 0,
        !is_whitespace(s[0]),
        !is_whitespace(s.last()),
    ensures
        trim(s) == s,
{
    assert(trim_start(s) == s);
    assert(trim_end(s) == s);
}

proof fn lemma_id_chars_utf8_len(s: Seq<char>)
    requires
        all_id_chars(s),
    ensures
        utf8_len(s) == s.len(),
    decreases s.len(),
{
    if s.len() > 0 {
        assert(all_id_chars(s.drop_first())) by {
            assert forall|i: int| 0 <= i < s.drop_first().len() implies is_id_char(#[trigger] s.drop_first()[i]) by {
                assert(s.drop_first()[i] == s[i + 1]);
            }
        }
        lemma_id_chars_utf8_len(s.drop_first());
        assert(is_id_char(s[0]));
        assert((s[0] as u32) < 0x80);
    }
}

/// A character that never occurs in `s` rules out any match of a pattern
/// that contains it.
proof fn lemma_no_match_without_char(s: Seq<char>, pat: Seq<char>, k: int)
    requires
        0 <= k < pat.len(),
        forall|i: int| 0 <= i < s.len() ==> s[i] != pat[k],
    ensures
        find(s, pat) is None,
{
    lemma_find_spec(s, pat);
    if find(s, pat) is Some {
        let i = find(s, pat).unwrap();
        assert(matches_at(s, pat, i));
        assert(s.subrange(i, i + pat.len())[k] == pat[k]);
        assert(s[i + k] == pat[k]);
    }
}

/// An identifier of eleven characters is taken as the video ID, unchanged.
pub proof fn plain_video_id_accepted(id: Seq<char>)
    requires
        id.len() == 11,
        all_id_chars(id),
    ensures
        video_id_of(id) == Ok::<Seq<char>, Seq<char>>(id),
{
    assert(is_id_char(id[0]) && is_id_char(id.last()));
    lemma_no_ws_trim(id);
    lemma_id_chars_utf8_len(id);
}

/// In a YouTube watch URL, the video ID is the identifier after `v=`: for
/// any address part that names youtube.com and holds no `=`, followed by
/// `v=`, the ID, and anything that does not continue the ID.
pub proof fn watch_url_video_id(prefix: Seq<char>, id: Seq<char>, rest: Seq<char>)
    requires
        contains(prefix, "youtube.com"@),
        forall|i: int| 0 <= i < prefix.len() ==> prefix[i] != '=',
        prefix.len() > 0,
        !is_whitespace(prefix[0]),
        id.len() > 0,
        all_id_chars(id),
        rest.len() > 0 ==> !is_id_char(rest[0]) && !is_whitespace(rest.last()),
    ensures
        video_id_of(prefix + "v="@ + id + rest) == Ok::<Seq<char>, Seq<char>>(id),
{
    reveal_strlit("v=");
    reveal_strlit("youtube.com");
    let s = prefix + "v="@ + id + rest;
    assert(s[0] == prefix[0]);
    if rest.len() > 0 {
        assert(s.last() == rest.last());
    } else {
        assert(s.last() == id.last());
        assert(is_id_char(id.last()));
    }
    lemma_no_ws_trim(s);
    // The address part holds a '.', so the whole input is not a bare ID.
    lemma_find_spec(prefix, "youtube.com"@);
    let j = find(prefix, "youtube.com"@).unwrap();
    assert(matches_at(prefix, "youtube.com"@, j));
    assert("youtube.com"@[7] == '.');
    assert(prefix.subrange(j, j + 11)[7] == '.');
    assert(s[j + 7] == '.');
    assert(!all_id_chars(s));
    // The address part still names youtube.com within the input.
    assert(matches_at(s, "youtube.com"@, j)) by {
        assert(s.subrange(j, j + 11) =~= prefix.subrange(j, j + 11));
    }
    lemma_find_spec(s, "youtube.com"@);
    assert(contains(s, "youtube.com"@));
    // The first "v=" is the one after the address part.
    let p = prefix.len() as int;
    assert(matches_at(s, "v="@, p)) by {
        assert(s.subrange(p, p + 2) =~= "v="@);
    }
    lemma_find_spec(s, "v="@);
    let f = find(s, "v="@).unwrap();
    if f < p {
        assert(s.subrange(f, f + 2)[1] == '=');
        assert(s[f + 1] == '=');
        if f + 1 < p {
            assert(s[f + 1] == prefix[f + 1]);
        } else {
            assert(s[f + 1] == 'v');
        }
    }
    assert(f == p);
    // The identifier run after "v=" is exactly the ID.
    let after = s.skip(p + 2);
    assert(after =~= id + rest);
    crate::text::lemma_id_prefix_len(after);
    assert forall|k: int| 0 <= k < id.len() implies is_id_char(#[trigger] after[k]) by {
        assert(after[k] == id[k]);
    }
    if rest.len() > 0 {
        assert(after[id.len() as int] == rest[0]);
    }
    let n = id_prefix_len(after) as int;
    if n < id.len() {
        assert(is_id_char(after[n]));
    } else if n > id.len() {
        assert(is_id_char(after[id.len() as int]));
    }
    assert(id_prefix(after) =~= id);
}

/// The identifier run at the start of `id + rest` is `id` when `rest` does
/// not continue it.
proof fn lemma_id_prefix_of(id: Seq<char>, rest: Seq<char>)
    requires
        all_id_chars(id),
        rest.len() > 0 ==> !is_id_char(rest[0]),
    ensures
        id_prefix(id + rest) == id,
{
    let after = id + rest;
    crate::text::lemma_id_prefix_len(after);
    assert forall|k: int| 0 <= k < id.len() implies is_id_char(#[trigger] after[k]) by {
        assert(after[k] == id[k]);
    }
    if rest.len() > 0 {
        assert(after[id.len() as int] == rest[0]);
    }
    let n = id_prefix_len(after) as int;
    if n < id.len() {
        assert(is_id_char(after[n]));
    } else if n > id.len() {
        assert(is_id_char(after[id.len() as int]));
    }
    assert(id_prefix(after) =~= id);
}

/// Text made of a part without `=`, a literal without `=`, identifier
/// characters and a part that holds no `v=` and does not start with `=`
/// holds no `v=`.
proof fn lemma_no_v_param(prefix: Seq<char>, lit: Seq<char>, id: Seq<char>, rest: Seq<char>)
    requires
        forall|i: int| 0 <= i < prefix.len() ==> prefix[i] != '=',
        forall|i: int| 0 <= i < lit.len() ==> lit[i] != '=',
        all_id_chars(id),
        !contains(rest, "v="@),
        rest.len() > 0 ==> rest[0] != '=',
    ensures
        find(prefix + lit + id + rest, "v="@) is None,
{
    reveal_strlit("v=");
    let head = prefix + lit + id;
    let s = head + rest;
    let p = prefix.len() as int;
    let q = p + lit.len();
    let r = q + id.len();
    lemma_find_spec(s, "v="@);
    lemma_find_spec(rest, "v="@);
    if find(s, "v="@) is Some {
        let f = find(s, "v="@).unwrap();
        assert(s.subrange(f, f + 2)[1] == '=');
        let i = f + 1;
        assert(s[i] == '=');
        if i < p {
            assert(s[i] == prefix[i]);
        } else if i < q {
            assert(s[i] == lit[i - p]);
        } else if i < r {
            assert(s[i] == id[i - q]);
            assert(is_id_char(id[i - q]));
        } else if i == r {
            assert(s[i] == rest[0]);
        } else {
            lemma_match_in_tail(head, rest, "v="@, f);
        }
    }
}

/// The first `youtu.be/` in a short link is the one after a scheme part
/// without `.`.
proof fn lemma_short_marker_first(prefix: Seq<char>, tail: Seq<char>)
    requires
        forall|i: int| 0 <= i < prefix.len() ==> prefix[i] != '.',
    ensures
        find(prefix + "youtu.be/"@ + tail, "youtu.be/"@) == Some(prefix.len() as int),
{
    reveal_strlit("youtu.be/");
    let marker = "youtu.be/"@;
    let s = prefix + marker + tail;
    let p = prefix.len() as int;
    assert(matches_at(s, marker, p)) by {
        assert(s.subrange(p, p + 9) =~= marker);
    }
    lemma_find_spec(s, marker);
    let f = find(s, marker).unwrap();
    if f < p {
        assert(s.subrange(f, f + 9)[5] == '.');
        assert(s[f + 5] == '.');
        if f + 5 < p {
            assert(s[f + 5] == prefix[f + 5]);
        } else {
            assert(s[f + 5] == marker[f + 5 - p]);
        }
    }
}

/// In a short link, the video ID is the identifier after `youtu.be/`: for any
/// scheme part without `.` or `=`, followed by `youtu.be/`, the ID, and
/// anything that does not continue the ID, does not start with `=` and
/// holds no `v=` (such as a `?si=…` share parameter).
pub proof fn short_url_video_id(prefix: Seq<char>, id: Seq<char>, rest: Seq<char>)
    requires
        forall|i: int| 0 <= i < prefix.len() ==> prefix[i] != '=' && prefix[i] != '.',
        prefix.len() > 0 ==> !is_whitespace(prefix[0]),
        id.len() > 0,
        all_id_chars(id),
        !contains(rest, "v="@),
        rest.len() > 0 ==> !is_id_char(rest[0]) && rest[0] != '=' && !is_whitespace(rest.last()),
    ensures
        video_id_of(prefix + "youtu.be/"@ + id + rest) == Ok::<Seq<char>, Seq<char>>(id),
{
    reveal_strlit("youtu.be/");
    reveal_strlit("youtu.be");
    let marker = "youtu.be/"@;
    let s = prefix + marker + id + rest;
    let p = prefix.len() as int;
    if prefix.len() > 0 {
        assert(s[0] == prefix[0]);
    } else {
        assert(s[0] == 'y');
    }
    if rest.len() > 0 {
        assert(s.last() == rest.last());
    } else {
        assert(s.last() == id.last());
        assert(is_id_char(id.last()));
    }
    lemma_no_ws_trim(s);
    // The '.' of the host keeps the input from being a bare ID.
    assert(s[p + 5] == '.');
    assert(!all_id_chars(s));
    // The input names youtu.be.
    assert(matches_at(s, "youtu.be"@, p)) by {
        assert(s.subrange(p, p + 8) =~= "youtu.be"@);
    }
    lemma_find_spec(s, "youtu.be"@);
    assert(contains(s, "youtu.be"@));
    assert forall|i: int| 0 <= i < marker.len() implies marker[i] != '=' by {}
    lemma_no_v_param(prefix, marker, id, rest);
    assert(s =~= prefix + marker + (id + rest));
    lemma_short_marker_first(prefix, id + rest);
    assert(s.skip(p + 9) =~= id + rest);
    lemma_id_prefix_of(id, rest);
}

/// A match of `pat` in `s` that ends within `t`, of which `s` is an
/// extension, is a match in `t`.
proof fn lemma_match_in_head(t: Seq<char>, s: Seq<char>, pat: Seq<char>, f: int)
    requires
        matches_at(s, pat, f),
        f + pat.len() <= t.len(),
        t.len() <= s.len(),
        forall|i: int| 0 <= i < t.len() ==> s[i] == t[i],
    ensures
        matches_at(t, pat, f),
{
    assert(t.subrange(f, f + pat.len()) =~= s.subrange(f, f + pat.len()));
}

/// `prefix + "/"` starts every text made of `prefix`, a literal that starts
/// with `/`, and anything.
proof fn lemma_slash_head(prefix: Seq<char>, lit: Seq<char>, tail: Seq<char>)
    requires
        lit.len() > 0,
        lit[0] == '/',
    ensures
        forall|i: int| 0 <= i < prefix.len() + 1 ==> (prefix + lit + tail)[i] == (prefix + "/"@)[i],
        (prefix + "/"@).len() == prefix.len() + 1,
{
    reveal_strlit("/");
    let s = prefix + lit + tail;
    let t = prefix + "/"@;
    assert forall|i: int| 0 <= i < prefix.len() + 1 implies s[i] == t[i] by {
        if i < prefix.len() {
            assert(s[i] == prefix[i]);
        } else {
            assert(s[i] == lit[0]);
        }
    }
}

/// An embed address whose address part names no `/embed/` of its own has
/// its first `/embed/` right after that part.
proof fn lemma_embed_marker_first(prefix: Seq<char>, tail: Seq<char>)
    requires
        !contains(prefix + "/"@, "/embed/"@),
    ensures
        find(prefix + "/embed/"@ + tail, "/embed/"@) == Some(prefix.len() as int),
{
    reveal_strlit("/embed/");
    reveal_strlit("/");
    let m = "/embed/"@;
    let s = prefix + m + tail;
    let p = prefix.len() as int;
    assert(matches_at(s, m, p)) by {
        assert(s.subrange(p, p + 7) =~= m);
    }
    lemma_find_spec(s, m);
    lemma_find_spec(prefix + "/"@, m);
    let f = find(s, m).unwrap();
    if f < p {
        assert(s.subrange(f, f + 7)[6] == '/');
        assert(s[f + 6] == '/');
        if f + 6 <= p {
            lemma_slash_head(prefix, m, tail);
            lemma_match_in_head(prefix + "/"@, s, m, f);
        } else {
            assert(s[f + 6] == m[f + 6 - p]);
        }
    }
}

/// An embed address names no `youtu.be/` when its address part does not and
/// what follows the ID holds no `.`.
proof fn lemma_embed_not_short(prefix: Seq<char>, id: Seq<char>, rest: Seq<char>)
    requires
        !contains(prefix + "/"@, "youtu.be/"@),
        all_id_chars(id),
        forall|i: int| 0 <= i < rest.len() ==> rest[i] != '.',
    ensures
        find(prefix + "/embed/"@ + id + rest, "youtu.be/"@) is None,
{
    reveal_strlit("/embed/");
    reveal_strlit("youtu.be/");
    reveal_strlit("/");
    let m = "/embed/"@;
    let yb = "youtu.be/"@;
    let s = prefix + m + id + rest;
    let p = prefix.len() as int;
    let q = p + 7;
    let r = q + id.len();
    lemma_find_spec(s, yb);
    lemma_find_spec(prefix + "/"@, yb);
    if find(s, yb) is Some {
        let f = find(s, yb).unwrap();
        assert(s.subrange(f, f + 9)[5] == '.');
        assert(s[f + 5] == '.');
        if f + 5 >= p {
            if f + 5 < q {
                assert(s[f + 5] == m[f + 5 - p]);
            } else if f + 5 < r {
                assert(s[f + 5] == id[f + 5 - q]);
                assert(is_id_char(id[f + 5 - q]));
            } else {
                assert(s[f + 5] == rest[f + 5 - r]);
            }
        }
        assert(s.subrange(f, f + 9)[8] == '/');
        assert(s[f + 8] == '/');
        if f + 8 <= p {
            assert(s =~= prefix + m + (id + rest));
            lemma_slash_head(prefix, m, id + rest);
            lemma_match_in_head(prefix + "/"@, s, yb, f);
        } else {
            assert(s[f + 8] == m[f + 8 - p]);
        }
    }
}

/// In an embed address, the video ID is the identifier after `/embed/`: for
/// any address part that names youtube.com, holds no `=` and no `/embed/` or
/// `youtu.be/` of its own, followed by `/embed/`, the ID, and anything
/// without `.` that does not continue the ID, does not start with `=` and
/// holds no `v=` (such as a `?rel=0` parameter).
pub proof fn embed_url_video_id(prefix: Seq<char>, id: Seq<char>, rest: Seq<char>)
    requires
        contains(prefix, "youtube.com"@),
        forall|i: int| 0 <= i < prefix.len() ==> prefix[i] != '=',
        !is_whitespace(prefix[0]),
        !contains(prefix + "/"@, "/embed/"@),
        !contains(prefix + "/"@, "youtu.be/"@),
        id.len() > 0,
        all_id_chars(id),
        forall|i: int| 0 <= i < rest.len() ==> rest[i] != '.',
        !contains(rest, "v="@),
        rest.len() > 0 ==> !is_id_char(rest[0]) && rest[0] != '=' && !is_whitespace(rest.last()),
    ensures
        video_id_of(prefix + "/embed/"@ + id + rest) == Ok::<Seq<char>, Seq<char>>(id),
{
    reveal_strlit("/embed/");
    reveal_strlit("youtube.com");
    let m = "/embed/"@;
    let s = prefix + m + id + rest;
    let p = prefix.len() as int;
    lemma_find_spec(prefix, "youtube.com"@);
    let j = find(prefix, "youtube.com"@).unwrap();
    assert(matches_at(prefix, "youtube.com"@, j));
    assert(s[0] == prefix[0]);
    if rest.len() > 0 {
        assert(s.last() == rest.last());
    } else {
        assert(s.last() == id.last());
        assert(is_id_char(id.last()));
    }
    lemma_no_ws_trim(s);
    // The address part holds a '.', so the whole input is not a bare ID.
    assert("youtube.com"@[7] == '.');
    assert(prefix.subrange(j, j + 11)[7] == '.');
    assert(s[j + 7] == '.');
    assert(!all_id_chars(s));
    // The address part still names youtube.com within the input.
    assert(matches_at(s, "youtube.com"@, j)) by {
        assert(s.subrange(j, j + 11) =~= prefix.subrange(j, j + 11));
    }
    lemma_find_spec(s, "youtube.com"@);
    assert(contains(s, "youtube.com"@));
    assert forall|i: int| 0 <= i < m.len() implies m[i] != '=' by {}
    lemma_no_v_param(prefix, m, id, rest);
    lemma_embed_not_short(prefix, id, rest);
    assert(s =~= prefix + m + (id + rest));
    lemma_embed_marker_first(prefix, id + rest);
    assert(s.skip(p + 7) =~= id + rest);
    lemma_id_prefix_of(id, rest);
}

/// A bare `@handle` names a handle, kept with its `@`.
pub proof fn bare_handle_is_handle(h: Seq<char>)
    requires
        h.len() > 0,
        forall|i: int| 0 <= i < h.len() ==> h[i] != '/',
        !is_whitespace(h.last()),
    ensures
        channel_input_of("@"@ + h) == ChannelInputView::Handle("@"@ + h),
{
    reveal_strlit("@");
    reveal_strlit("/channel/");
    reveal_strlit("/@");
    reveal_strlit("/");
    let s = "@"@ + h;
    assert(s[0] == '@');
    assert(s.last() == h.last());
    lemma_no_ws_trim(s);
    assert forall|i: int| 0 <= i < s.len() implies s[i] != '/' by {
        if i > 0 {
            assert(s[i] == h[i - 1]);
        }
    }
    lemma_no_match_without_char(s, "/channel/"@, 0);
    lemma_no_match_without_char(s, "/@"@, 0);
    lemma_no_match_without_char(s, "/"@, 0);
}

/// A match of `pat` in `head + rest` that starts within `rest` is a match in
/// `rest`.
proof fn lemma_match_in_tail(head: Seq<char>, rest: Seq<char>, pat: Seq<char>, f: int)
    requires
        matches_at(head + rest, pat, f),
        f >= head.len(),
    ensures
        matches_at(rest, pat, f - head.len()),
{
    let s = head + rest;
    let g = f - head.len();
    assert(rest.subrange(g, g + pat.len()) =~= s.subrange(f, f + pat.len()));
}

/// A handle address names no `/channel/` when neither its address part nor
/// what follows the handle does.
proof fn lemma_handle_url_not_channel(prefix: Seq<char>, h: Seq<char>, rest: Seq<char>)
    requires
        !contains(prefix + "/"@, "/channel/"@),
        forall|i: int| 0 <= i < h.len() ==> !is_handle_end(#[trigger] h[i]),
        !contains(rest, "/channel/"@),
    ensures
        find(prefix + "/@"@ + h + rest, "/channel/"@) is None,
{
    reveal_strlit("/@");
    reveal_strlit("/channel/");
    let m = "/@"@;
    let c = "/channel/"@;
    let s = prefix + m + h + rest;
    let p = prefix.len() as int;
    let q = p + 2;
    let r = q + h.len();
    lemma_find_spec(s, c);
    lemma_find_spec(prefix + "/"@, c);
    lemma_find_spec(rest, c);
    if find(s, c) is Some {
        let f = find(s, c).unwrap();
        assert(s.subrange(f, f + 9)[0] == '/');
        assert(s[f] == '/');
        if f + 9 <= p + 1 {
            assert(s =~= prefix + m + (h + rest));
            lemma_slash_head(prefix, m, h + rest);
            lemma_match_in_head(prefix + "/"@, s, c, f);
        } else if f <= p + 1 {
            // The match would cover the '@' after the address part.
            assert(s[p + 1] == '@');
            assert(s.subrange(f, f + 9)[p + 1 - f] == c[p + 1 - f]);
        } else if f < r {
            assert(s[f] == h[f - q]);
        } else {
            assert(s =~= (prefix + m + h) + rest);
            lemma_match_in_tail(prefix + m + h, rest, c, f);
        }
    }
}

/// The first `/@` of a handle address is the one after an address part
/// without `@`.
proof fn lemma_handle_marker_first(prefix: Seq<char>, tail: Seq<char>)
    requires
        forall|i: int| 0 <= i < prefix.len() ==> prefix[i] != '@',
    ensures
        find(prefix + "/@"@ + tail, "/@"@) == Some(prefix.len() as int),
{
    reveal_strlit("/@");
    let m = "/@"@;
    let s = prefix + m + tail;
    let p = prefix.len() as int;
    assert(matches_at(s, m, p)) by {
        assert(s.subrange(p, p + 2) =~= m);
    }
    lemma_find_spec(s, m);
    let f = find(s, m).unwrap();
    if f < p {
        assert(s.subrange(f, f + 2)[1] == '@');
        assert(s[f + 1] == '@');
        if f + 1 < p {
            assert(s[f + 1] == prefix[f + 1]);
        } else {
            assert(s[f + 1] == m[0]);
        }
    }
}

/// In a channel address of the form `…/@handle`, the handle is what follows
/// `/@` up to the next `/`, `?` or `#`, kept with its `@`: for any address
/// part without `@` or `/channel/`, and anything after the handle that
/// starts a new part and names no `/channel/`.
pub proof fn handle_url_is_handle(prefix: Seq<char>, h: Seq<char>, rest: Seq<char>)
    requires
        prefix.len() > 0 ==> !is_whitespace(prefix[0]),
        forall|i: int| 0 <= i < prefix.len() ==> prefix[i] != '@',
        !contains(prefix + "/"@, "/channel/"@),
        h.len() > 0,
        forall|i: int| 0 <= i < h.len() ==> !is_handle_end(#[trigger] h[i]),
        rest.len() == 0 ==> !is_whitespace(h.last()),
        rest.len() > 0 ==> is_handle_end(rest[0]) && !is_whitespace(rest.last()),
        !contains(rest, "/channel/"@),
    ensures
        channel_input_of(prefix + "/@"@ + h + rest) == ChannelInputView::Handle("@"@ + h),
{
    reveal_strlit("/@");
    let m = "/@"@;
    let s = prefix + m + h + rest;
    let p = prefix.len() as int;
    if prefix.len() > 0 {
        assert(s[0] == prefix[0]);
    } else {
        assert(s[0] == '/');
    }
    if rest.len() > 0 {
        assert(s.last() == rest.last());
    } else {
        assert(s.last() == h.last());
    }
    lemma_no_ws_trim(s);
    lemma_handle_url_not_channel(prefix, h, rest);
    assert(s =~= prefix + m + (h + rest));
    lemma_handle_marker_first(prefix, h + rest);
    let after = s.skip(p + 2);
    assert(after =~= h + rest);
    assert forall|j: int| 0 <= j < h.len() implies !is_handle_end(#[trigger] after[j]) by {
        assert(after[j] == h[j]);
        assert(!is_handle_end(h[j]));
    }
    if rest.len() > 0 {
        assert(after[h.len() as int] == rest[0]);
    }
    crate::api::channel::lemma_handle_prefix_len(after, h.len() as int);
    assert(after.take(h.len() as int) =~= h);
}

/// `UC` followed by 22 identifier characters is a channel ID.
pub proof fn bare_channel_id_is_id(tail: Seq<char>)
    requires
        tail.len() == 22,
        all_id_chars(tail),
    ensures
        channel_input_of("UC"@ + tail) == ChannelInputView::Id("UC"@ + tail),
{
    reveal_strlit("UC");
    reveal_strlit("/channel/");
    reveal_strlit("/@");
    reveal_strlit("/");
    let s = "UC"@ + tail;
    assert(s[0] == 'U');
    assert(s.last() == tail.last());
    assert(is_id_char(tail.last()));
    lemma_no_ws_trim(s);
    assert forall|i: int| 0 <= i < s.len() implies s[i] != '/' by {
        if i >= 2 {
            assert(s[i] == tail[i - 2]);
            assert(is_id_char(tail[i - 2]));
        }
    }
    assert forall|i: int| 0 <= i < s.len() implies is_id_char(#[trigger] s[i]) by {
        if i >= 2 {
            assert(s[i] == tail[i - 2]);
        }
    }
    lemma_no_match_without_char(s, "/channel/"@, 0);
    lemma_no_match_without_char(s, "/@"@, 0);
    assert(s.take(2) =~= "UC"@);
}

proof fn lemma_replace_absent(s: Seq<char>, from: Seq<char>, to: Seq<char>)
    requires
        from.len() > 0,
        forall|i: int| 0 <= i < s.len() ==> s[i] != from[0],
    ensures
        replace_all(s, from, to) == s,
    decreases s.len(),
{
    if s.len() >= from.len() {
        assert(s.take(from.len() as int)[0] == s[0]);
        assert(s.take(from.len() as int) != from);
        assert forall|i: int| 0 <= i < s.drop_first().len() implies s.drop_first()[i] != from[0] by {
            assert(s.drop_first()[i] == s[i + 1]);
        }
        lemma_replace_absent(s.drop_first(), from, to);
        assert(seq![s[0]] + s.drop_first() =~= s);
    }
}

/// Caption text without `&` holds no entity, and is left as it is.
pub proof fn text_without_entities_unchanged(text: Seq<char>)
    requires
        forall|i: int| 0 <= i < text.len() ==> text[i] != '&',
    ensures
        decoded_entities(text) == text,
{
    reveal_strlit("&amp;");
    reveal_strlit("&lt;");
    reveal_strlit("&gt;");
    reveal_strlit("&quot;");
    reveal_strlit("&#39;");
    reveal_strlit("&apos;");
    lemma_replace_absent(text, "&amp;"@, "&"@);
    lemma_replace_absent(text, "&lt;"@, "<"@);
    lemma_replace_absent(text, "&gt;"@, ">"@);
    lemma_replace_absent(text, "&quot;"@, "\""@);
    lemma_replace_absent(text, "&#39;"@, "'"@);
    lemma_replace_absent(text, "&apos;"@, "'"@);
}

/// A search never returns more videos than asked for.
pub proof fn search_returns_at_most_limit(response: JsonValue, limit: nat)
    ensures
        search_videos(response, limit) matches Some(v) ==> v.len() <= limit,
{
}

/// Every video of `videos` is attributed to the channel `name`.
pub open spec fn attributed_to(videos: Seq<VideoSummaryView>, name: Seq<char>) -> bool {
    forall|k: int| 0 <= k < videos.len() ==> (#[trigger] videos[k]).channel == name
}

pub open spec fn channel_is(name: Seq<char>) -> spec_fn(VideoSummaryView) -> bool {
    |v: VideoSummaryView| v.channel == name
}

/// A renderer read for a known channel is attributed to it.
proof fn lemma_video_of_attributed(r: JsonValue, name: Seq<char>)
    ensures
        video_of(r, Some(name)) matches Some(v) ==> v.channel == name,
{
}

/// The videos of a grid read for a channel are attributed to it.
proof fn lemma_grid_attributed(items: Seq<JsonValue>, name: Seq<char>)
    ensures
        attributed_to(grid_videos(items, name), name),
{
    let f = grid_video_fn(name);
    let p = channel_is(name);
    assert forall|i: int, k: int| 0 <= i < items.len() && 0 <= k < f(items[i]).len() implies p(#[trigger] f(items[i])[k]) by {
        match items[i].at_path(seq!["richItemRenderer"@, "content"@, "videoRenderer"@]) {
            Some(r) => lemma_video_of_attributed(r, name),
            None => {},
        }
    }
    lemma_flat_map_forall(items, f, p);
}

/// Videos listed for a channel, from the first page or any later page, are
/// attributed to that channel.
pub proof fn listed_videos_are_attributed(response: JsonValue, name: Seq<char>)
    ensures
        browse_initial_page(response, name) matches Ok(page) ==> attributed_to(page.0, name),
        attributed_to(continuation_page(response, name).0, name),
{
    match browse_initial_page(response, name) {
        Ok(page) => {
            let tabs = crate::json::array_at(response, crate::api::channel::tabs_path()).unwrap();
            let items = crate::seqs::first_some(tabs, crate::api::channel::tab_grid_fn()).unwrap();
            lemma_grid_attributed(items, name);
        },
        Err(_) => {},
    }
    match response.field("onResponseReceivedActions"@) {
        Some(v) => match v.array_value() {
            Some(actions) => {
                let f = action_videos_fn(name);
                let p = channel_is(name);
                assert forall|i: int, k: int| 0 <= i < actions.len() && 0 <= k < f(actions[i]).len() implies p(#[trigger] f(actions[i])[k]) by {
                    match action_items(actions[i]) {
                        Some(items) => lemma_grid_attributed(items, name),
                        None => {},
                    }
                }
                lemma_flat_map_forall(actions, f, p);
            },
            None => {},
        },
        None => {},
    }
}

/// The videos of a channel's search page read for a channel are attributed
/// to it.
proof fn lemma_search_page_attributed(data: JsonValue, name: Seq<char>)
    ensures
        attributed_to(channel_search_videos(data, name), name),
{
    let p = channel_is(name);
    let fi = search_item_fn(name);
    let fs = search_section_fn(name);
    let ft = search_tab_fn(name);
    assert forall|items: Seq<JsonValue>| true implies attributed_to(#[trigger] flat_map(items, fi), name) by {
        assert forall|i: int, k: int| 0 <= i < items.len() && 0 <= k < fi(items[i]).len() implies p(#[trigger] fi(items[i])[k]) by {
            match items[i].field("videoRenderer"@) {
                Some(r) => lemma_video_of_attributed(r, name),
                None => {},
            }
        }
        lemma_flat_map_forall(items, fi, p);
    }
    assert forall|sections: Seq<JsonValue>| true implies attributed_to(#[trigger] flat_map(sections, fs), name) by {
        assert forall|i: int, k: int| 0 <= i < sections.len() && 0 <= k < fs(sections[i]).len() implies p(#[trigger] fs(sections[i])[k]) by {
            match crate::json::array_at(sections[i], seq!["itemSectionRenderer"@, "contents"@]) {
                Some(items) => {
                    assert(attributed_to(flat_map(items, fi), name));
                },
                None => {},
            }
        }
        lemma_flat_map_forall(sections, fs, p);
    }
    match crate::json::array_at(data, crate::api::channel::tabs_path()) {
        Some(tabs) => {
            assert forall|i: int, k: int| 0 <= i < tabs.len() && 0 <= k < ft(tabs[i]).len() implies p(#[trigger] ft(tabs[i])[k]) by {
                match tab_sections(tabs[i]) {
                    Some(sections) => {
                        assert(attributed_to(flat_map(sections, fs), name));
                    },
                    None => {},
                }
            }
            lemma_flat_map_forall(tabs, ft, p);
        },
        None => {},
    }
}

/// A search within a channel returns only videos attributed to the channel
/// it reports.
pub proof fn channel_search_is_attributed(
    r: ChannelVideosResult,
    data: JsonValue,
    channel_id: Seq<char>,
    channel_name: Seq<char>,
    query: Seq<char>,
    limit: nat,
)
    requires
        channel_search_result_ok(r, data, channel_id, channel_name, query, limit),
    ensures
        attributed_to(summaries_view(r.videos@), r.channel.name@),
{
    let name = r.channel.name@;
    lemma_search_page_attributed(data, name);
    lemma_take_at_most_forall(channel_search_videos(data, name), limit, channel_is(name));
}

/// Writing a `@` before a handle that has none changes nothing once the
/// leading `@`s are dropped.
proof fn lemma_trim_at(a: Seq<char>)
    requires
        a.len() > 0 ==> a[0] != '@',
    ensures
        trim_start_char(a, '@') == a,
        trim_start_char("@"@ + a, '@') == a,
{
    reveal_strlit("@");
    assert(("@"@ + a).drop_first() =~= a);
}

/// Handles that differ only in the case of ASCII letters, written with or
/// without their `@`, name one cache file.
pub proof fn handle_spellings_share_cache_file(a: Seq<char>, b: Seq<char>)
    requires
        all_ascii(a),
        all_ascii(b),
        ascii_lowercase(a) == ascii_lowercase(b),
        a.len() > 0 ==> a[0] != '@',
        b.len() > 0 ==> b[0] != '@',
    ensures
        channel_id_file(a) == channel_id_file(b),
        channel_id_file("@"@ + a) == channel_id_file(b),
        channel_id_file("@"@ + a) == channel_id_file("@"@ + b),
{
    lemma_trim_at(a);
    lemma_trim_at(b);
}

// ---------------------------------------------------------------------------
// Choosing a caption track
// ---------------------------------------------------------------------------

proof fn lemma_first_index_min(tracks: Seq<CaptionTrackView>, p: spec_fn(CaptionTrackView) -> bool, k: int)
    requires
        0 <= k < tracks.len(),
        p(tracks[k]),
    ensures
        exists|m: int| 0 <= m < tracks.len() && p(tracks[m]) && forall|j: int| 0 <= j < m ==> !p(#[trigger] tracks[j]),
    decreases k,
{
    if exists|j: int| 0 <= j < k && p(#[trigger] tracks[j]) {
        let j = choose|j: int| 0 <= j < k && p(#[trigger] tracks[j]);
        lemma_first_index_min(tracks, p, j);
    } else {
        assert(forall|j: int| 0 <= j < k ==> !p(#[trigger] tracks[j]));
    }
}

proof fn lemma_first_index_spec(tracks: Seq<CaptionTrackView>, p: spec_fn(CaptionTrackView) -> bool)
    ensures
        first_index(tracks, p) matches Some(i) ==> 0 <= i < tracks.len() && p(tracks[i])
            && forall|j: int| 0 <= j < i ==> !p(#[trigger] tracks[j]),
        first_index(tracks, p) is None ==> forall|k: int| 0 <= k < tracks.len() ==> !p(#[trigger] tracks[k]),
{
    if exists|k: int| 0 <= k < tracks.len() && p(#[trigger] tracks[k]) {
        let k = choose|k: int| 0 <= k < tracks.len() && p(#[trigger] tracks[k]);
        lemma_first_index_min(tracks, p, k);
    }
}

/// The caption track chosen for a language: a manual track with exactly that
/// code when there is one; else a track with exactly that code when there is
/// one; else a track whose code and the requested one begin one another (a
/// regional variant); and nothing only when no track is related to it.
pub proof fn caption_choice_prefers_exact_code(tracks: Seq<CaptionTrackView>, lang: Seq<char>)
    ensures
        match chosen_track(tracks, lang) {
            Some(i) => {
                &&& 0 <= i < tracks.len()
                &&& (exists|k: int| 0 <= k < tracks.len() && (#[trigger] tracks[k]).language_code == lang
                    && !tracks[k].is_auto_generated) ==> tracks[i].language_code == lang && !tracks[i].is_auto_generated
                &&& (exists|k: int| 0 <= k < tracks.len() && (#[trigger] tracks[k]).language_code == lang)
                    ==> tracks[i].language_code == lang
                &&& (tracks[i].language_code == lang || starts_with(tracks[i].language_code, lang)
                    || starts_with(lang, tracks[i].language_code))
            },
            None => forall|k: int| 0 <= k < tracks.len() ==> (#[trigger] tracks[k]).language_code != lang
                && !starts_with(tracks[k].language_code, lang) && !starts_with(lang, tracks[k].language_code),
        },
{
    lemma_first_index_spec(tracks, manual_match(lang));
    lemma_first_index_spec(tracks, exact_match(lang));
    lemma_first_index_spec(tracks, prefix_match(lang));
    match chosen_track(tracks, lang) {
        Some(i) => {
            if exists|k: int| 0 <= k < tracks.len() && (#[trigger] tracks[k]).language_code == lang {
                let k = choose|k: int| 0 <= k < tracks.len() && (#[trigger] tracks[k]).language_code == lang;
                assert(exact_match(lang)(tracks[k]));
            }
            if exists|k: int| 0 <= k < tracks.len() && (#[trigger] tracks[k]).language_code == lang
                && !tracks[k].is_auto_generated {
                let k = choose|k: int| 0 <= k < tracks.len() && (#[trigger] tracks[k]).language_code == lang
                    && !tracks[k].is_auto_generated;
                assert(manual_match(lang)(tracks[k]));
            }
        },
        None => {
            assert forall|k: int| 0 <= k < tracks.len() implies (#[trigger] tracks[k]).language_code != lang
                && !starts_with(tracks[k].language_code, lang) && !starts_with(lang, tracks[k].language_code) by {
                assert(!exact_match(lang)(tracks[k]));
                assert(!prefix_match(lang)(tracks[k]));
                if tracks[k].language_code == lang {
                    assert(starts_with(tracks[k].language_code, lang)) by {
                        assert(lang.take(lang.len() as int) =~= lang);
                    }
                }
            }
        },
    }
}

// ---------------------------------------------------------------------------
// Paging through a channel
// ---------------------------------------------------------------------------

/// The videos in one action of a continuation response: those of its grid of
/// appended or reloaded items.
pub open spec fn videos_of_action(action: JsonValue, name: Seq<char>) -> Seq<VideoSummaryView> {
    match action_items(action) {
        Some(items) => grid_videos(items, name),
        None => Seq::empty(),
    }
}

/// The continuation token in one action of a continuation response.
pub open spec fn token_of_action(action: JsonValue) -> Option<Seq<char>> {
    match action_items(action) {
        Some(items) => crate::api::channel::grid_token(items),
        None => None,
    }
}

/// Where the videos of action `a` start in a page made of the videos of the
/// actions in order: after all the videos of the actions before it.
pub open spec fn action_offset(actions: Seq<JsonValue>, name: Seq<char>, a: int) -> nat
    decreases a,
{
    if a <= 0 {
        0
    } else {
        action_offset(actions, name, a - 1) + videos_of_action(actions[a - 1], name).len()
    }
}

proof fn lemma_action_offset(actions: Seq<JsonValue>, name: Seq<char>, a: int)
    requires
        0 <= a <= actions.len(),
    ensures
        action_offset(actions, name, a) == flat_map(actions.take(a), action_videos_fn(name)).len(),
    decreases a,
{
    let f = action_videos_fn(name);
    if a == 0 {
        assert(actions.take(0).len() == 0);
    } else {
        lemma_action_offset(actions, name, a - 1);
        crate::seqs::lemma_flat_map_step(actions, f, a - 1);
        assert(f(actions[a - 1]) == videos_of_action(actions[a - 1], name));
    }
}

/// A continuation page gathers every action of the response, in order: the
/// videos of each action sit, in their order, right after those of the
/// actions before it, and the page holds nothing else; the next token is
/// that of the last action holding one (none when no action holds one).
pub proof fn continuation_page_gathers_every_action(response: JsonValue, name: Seq<char>, actions: Seq<JsonValue>)
    requires
        response.field("onResponseReceivedActions"@) matches Some(v) && v.array_value() == Some(actions),
    ensures
        continuation_page(response, name).0.len() == action_offset(actions, name, actions.len() as int),
        forall|a: int, k: int| 0 <= a < actions.len() && 0 <= k < videos_of_action(actions[a], name).len()
            ==> continuation_page(response, name).0[action_offset(actions, name, a) + k]
                == #[trigger] videos_of_action(actions[a], name)[k],
        continuation_page(response, name).1 matches Some(t) ==> exists|b: int| 0 <= b < actions.len()
            && #[trigger] token_of_action(actions[b]) == Some(t)
            && forall|c: int| b < c < actions.len() ==> (#[trigger] token_of_action(actions[c])) is None,
        continuation_page(response, name).1 is None ==> forall|c: int| 0 <= c < actions.len()
            ==> (#[trigger] token_of_action(actions[c])) is None,
{
    let f = action_videos_fn(name);
    let page = continuation_page(response, name);
    assert(page.0 == flat_map(actions, f));
    assert(page.1 == last_some(actions, crate::api::channel::action_token_fn()));
    lemma_action_offset(actions, name, actions.len() as int);
    assert(actions.take(actions.len() as int) =~= actions);
    assert forall|a: int, k: int| 0 <= a < actions.len() && 0 <= k < videos_of_action(actions[a], name).len()
        implies page.0[action_offset(actions, name, a) + k] == #[trigger] videos_of_action(actions[a], name)[k] by {
        assert(f(actions[a]) == videos_of_action(actions[a], name));
        lemma_flat_map_contains(actions, f, a, k);
        lemma_action_offset(actions, name, a);
    }
    let tf = crate::api::channel::action_token_fn();
    lemma_last_some_spec(actions, tf);
    match page.1 {
        Some(t) => {
            let b = choose|b: int| 0 <= b < actions.len() && #[trigger] tf(actions[b]) == Some(t)
                && forall|c: int| b < c < actions.len() ==> (#[trigger] tf(actions[c])) is None;
            assert(token_of_action(actions[b]) == Some(t));
            assert forall|c: int| b < c < actions.len() implies (#[trigger] token_of_action(actions[c])) is None by {
                assert(tf(actions[c]) is None);
            }
        },
        None => {
            assert forall|c: int| 0 <= c < actions.len() implies (#[trigger] token_of_action(actions[c])) is None by {
                assert(tf(actions[c]) is None);
            }
        },
    }
}

// ---------------------------------------------------------------------------
// The channel named by a channel's search page
// ---------------------------------------------------------------------------

/// A search within a channel reports the channel by the name its page gives
/// (the tabbed header's title, else the page header's title, else the
/// metadata title), unless that name is missing or "Unknown", in which case
/// the name the caller knew is kept.
pub proof fn channel_search_names_channel_from_page(
    r: ChannelVideosResult,
    data: JsonValue,
    channel_id: Seq<char>,
    channel_name: Seq<char>,
    query: Seq<char>,
    limit: nat,
)
    requires
        channel_search_result_ok(r, data, channel_id, channel_name, query, limit),
    ensures
        ({
            let header = match data.at_path(seq!["header"@, "c4TabbedHeaderRenderer"@]) {
                Some(h) => match h.field("title"@) {
                    Some(t) => t.str_value(),
                    None => None,
                },
                None => None,
            };
            let page = match data.at_path(seq!["header"@, "pageHeaderRenderer"@]) {
                Some(h) => match h.field("pageTitle"@) {
                    Some(t) => t.str_value(),
                    None => None,
                },
                None => None,
            };
            let meta = str_at(data, seq!["metadata"@, "channelMetadataRenderer"@, "title"@]);
            let named = match header {
                Some(n) => Some(n),
                None => match page {
                    Some(n) => Some(n),
                    None => meta,
                },
            };
            r.channel.name@ == match named {
                Some(n) => if n == "Unknown"@ { channel_name } else { n },
                None => channel_name,
            }
        }),
{
}

// ---------------------------------------------------------------------------
// Caption lines of a video's details
// ---------------------------------------------------------------------------

proof fn lemma_caption_lines_prefix(detail: VideoDetail, k: nat, n: nat)
    requires
        k <= n <= detail.caption_languages@.len(),
    ensures
        caption_lines(detail, k).len() <= caption_lines(detail, n).len(),
        caption_lines(detail, n).subrange(0, caption_lines(detail, k).len() as int) == caption_lines(detail, k),
    decreases n,
{
    if n > k {
        lemma_caption_lines_prefix(detail, k, (n - 1) as nat);
        let a = caption_lines(detail, (n - 1) as nat);
        let c = detail.caption_languages@[n - 1];
        let line = crate::output::caption_line(c.language_code@, c.language_name@, c.is_auto_generated);
        assert(caption_lines(detail, n) == a + line);
        assert((a + line).subrange(0, caption_lines(detail, k).len() as int)
            =~= a.subrange(0, caption_lines(detail, k).len() as int));
    } else {
        assert(caption_lines(detail, k).subrange(0, caption_lines(detail, k).len() as int) =~= caption_lines(detail, k));
    }
}

/// Each caption language of a video is listed in its details as
/// "- name (code)", followed by " [auto-generated]" exactly when it is
/// auto-generated, then a line break; the result is where that line starts.
pub proof fn caption_line_marks_auto_generated(detail: VideoDetail, k: int) -> (o: int)
    requires
        0 <= k < detail.caption_languages@.len(),
    ensures
        ({
            let c = detail.caption_languages@[k];
            let text = video_detail_text(detail);
            let head = "- "@ + c.language_name@ + " ("@ + c.language_code@ + ")"@;
            let tail = if c.is_auto_generated { " [auto-generated]\n"@ } else { "\n"@ };
            &&& 0 <= o
            &&& o + head.len() + tail.len() <= text.len()
            &&& text.subrange(o, o + head.len()) == head
            &&& text.subrange(o + head.len(), o + head.len() + tail.len()) == tail
        }),
{
    reveal_strlit(" [auto-generated]\n");
    reveal_strlit(" [auto-generated]");
    reveal_strlit("\n");
    let c = detail.caption_languages@[k];
    let n = detail.caption_languages@.len();
    let text = video_detail_text(detail);
    let head = "- "@ + c.language_name@ + " ("@ + c.language_code@ + ")"@;
    let tail = if c.is_auto_generated { " [auto-generated]\n"@ } else { "\n"@ };
    let line = crate::output::caption_line(c.language_code@, c.language_name@, c.is_auto_generated);
    assert(line =~= head + tail);
    let before = caption_lines(detail, k as nat);
    let upto = caption_lines(detail, (k + 1) as nat);
    assert(upto == before + line);
    lemma_caption_lines_prefix(detail, (k + 1) as nat, n);
    let all = caption_lines(detail, n);
    let pre = "# "@ + detail.title@ + "\n\n"@ + crate::output::overview_text(detail) + "\n## Available Captions\n\n"@;
    let post = crate::output::extras_text(detail);
    assert(crate::output::captions_text(detail) == "\n## Available Captions\n\n"@ + all);
    assert(text =~= pre + all + post);
    let o: int = (pre.len() + before.len()) as int;
    assert(all.subrange(0, upto.len() as int) == upto);
    assert forall|i: int| 0 <= i < line.len() implies text[o + i] == #[trigger] line[i] by {
        assert(text[o + i] == all[before.len() + i]);
        assert(all[before.len() + i] == all.subrange(0, upto.len() as int)[before.len() + i]);
        assert(upto[before.len() + i] == line[i]);
    }
    assert(text.subrange(o, o + head.len()) =~= head) by {
        assert forall|i: int| 0 <= i < head.len() implies text.subrange(o, o + head.len())[i] == head[i] by {
            assert(line[i] == head[i]);
        }
    }
    assert(text.subrange(o + head.len(), o + head.len() + tail.len()) =~= tail) by {
        assert forall|i: int| 0 <= i < tail.len() implies text.subrange(o + head.len(), o + head.len() + tail.len())[i] == tail[i] by {
            assert(line[head.len() + i] == tail[i]);
        }
    }
    o
}

// ---------------------------------------------------------------------------
// Names of sort orders and filters
// ---------------------------------------------------------------------------

/// Distinct search sort orders have distinct names.
pub proof fn sort_order_names_distinct(a: SortOrder, b: SortOrder)
    ensures
        sort_order_name(a) == sort_order_name(b) ==> a == b,
        sort_order_name(a).len() == sort_order_name(b).len() ==> a == b,
{
    reveal_strlit("Relevance");
    reveal_strlit("Date");
    reveal_strlit("Views");
    reveal_strlit("Rating");
}

/// Distinct channel sort orders have distinct names.
pub proof fn channel_sort_names_distinct(a: ChannelSort, b: ChannelSort)
    ensures
        channel_sort_name(a) == channel_sort_name(b) ==> a == b,
{
    reveal_strlit("Newest");
    reveal_strlit("Oldest");
    reveal_strlit("Popular");
    assert("Newest"@[0] != "Oldest"@[0]);
}

/// Distinct duration filters have distinct names.
pub proof fn duration_filter_names_distinct(a: DurationFilter, b: DurationFilter)
    ensures
        duration_filter_name(a) == duration_filter_name(b) ==> a == b,
{
    reveal_strlit("Short");
    reveal_strlit("Medium");
    reveal_strlit("Long");
    assert("Short"@.len() == 5 && "Medium"@.len() == 6 && "Long"@.len() == 4);
}

proof fn lemma_sort_name_ascii(s: SortOrder)
    ensures
        utf8_len(sort_order_name(s)) == sort_order_name(s).len(),
{
    reveal_strlit("Relevance");
    reveal_strlit("Date");
    reveal_strlit("Views");
    reveal_strlit("Rating");
    let n = sort_order_name(s);
    assert forall|i: int| 0 <= i < n.len() implies is_id_char(#[trigger] n[i]) by {}
    lemma_id_chars_utf8_len(n);
}

/// Two searches that differ only in their sort order hash different bytes
/// for their cache keys, so one is never served the other's cached results
/// by the key's construction.
pub proof fn search_keys_differ_by_sort(query: Seq<char>, a: SortOrder, b: SortOrder, duration: Seq<char>)
    requires
        a != b,
    ensures
        key_data(query, sort_order_name(a), duration) != key_data(query, sort_order_name(b), duration),
{
    sort_order_names_distinct(a, b);
    lemma_sort_name_ascii(a);
    lemma_sort_name_ascii(b);
    assert(key_data(query, sort_order_name(a), duration).len() != key_data(query, sort_order_name(b), duration).len());
}

} // verus!
