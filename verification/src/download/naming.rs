//! Where a downloaded episode is saved: file names made safe, and the
//! naming template filled in.

use vstd::prelude::*;
use crate::models::{default_naming_template, AppSettings, EpisodeInfo};
use crate::outside::{
    absolute_path, is_absolute_path, join_path, joined_path, regex_replace_all, without_chars,
};
use crate::text::{append, decimal, decimal2, own, push_decimal, push_decimal2, replace, replace_str, trim, trim_str, trim_start, trim_end, lemma_trim_start_shape, lemma_trim_end_shape, lemma_trim_idempotent};

verus! {

/// The characters a file name may not hold (besides NUL).
pub open spec fn forbidden_chars() -> Seq<char> {
    seq!['<', '>', ':', '"', '/', '\\', '|', '?', '*']
}

/// A name made safe for a file: the forbidden characters and NUL removed,
/// then trimmed.
pub open spec fn sanitized(name: Seq<char>) -> Seq<char> {
    trim(replace(without_chars(name, forbidden_chars()), seq!['\0'], Seq::empty()))
}

/// Makes `name` safe to use as a file name.
pub fn sanitize_filename(name: &str) -> (r: String)
    ensures
        r@ == sanitized(name@),
{
    let a = regex_replace_all(r#"[<>:"/\\|?*]"#, name, "");
    proof {
        reveal_strlit("");
        assert(a@ == without_chars(name@, forbidden_chars()));
        assert(""@ =~= Seq::<char>::empty());
        reveal_strlit("\0");
        assert("\0"@ =~= seq!['\0']);
    }
    let b = replace_str(a.as_str(), "\0", "");
    trim_str(b.as_str())
}

/// What is left after removing characters holds none of them, and only
/// characters of the text.
proof fn lemma_without_chars(s: Seq<char>, gone: Seq<char>)
    ensures
        forall|i: int| 0 <= i < without_chars(s, gone).len() ==> !gone.contains(#[trigger] without_chars(s, gone)[i])
            && s.contains(without_chars(s, gone)[i]),
    decreases s.len(),
{
    if s.len() > 0 {
        lemma_without_chars(s.drop_first(), gone);
        let rest = without_chars(s.drop_first(), gone);
        let r = without_chars(s, gone);
        assert forall|i: int| 0 <= i < r.len() implies !gone.contains(#[trigger] r[i]) && s.contains(r[i]) by {
            if gone.contains(s[0]) {
                assert(r =~= rest);
                assert(s.drop_first().contains(r[i]));
                let j = choose|j: int| 0 <= j < s.drop_first().len() && s.drop_first()[j] == r[i];
                assert(s[j + 1] == r[i]);
            } else {
                assert(r =~= seq![s[0]] + rest);
                if i == 0 {
                    assert(s[0] == r[i]);
                } else {
                    assert(r[i] == rest[i - 1]);
                    assert(s.drop_first().contains(r[i]));
                    let j = choose|j: int| 0 <= j < s.drop_first().len() && s.drop_first()[j] == r[i];
                    assert(s[j + 1] == r[i]);
                }
            }
        }
    }
}

/// Removing characters that do not occur changes nothing.
proof fn lemma_without_absent(s: Seq<char>, gone: Seq<char>)
    requires
        forall|i: int| 0 <= i < s.len() ==> !gone.contains(#[trigger] s[i]),
    ensures
        without_chars(s, gone) == s,
    decreases s.len(),
{
    if s.len() > 0 {
        assert(!gone.contains(s[0]));
        assert forall|i: int| 0 <= i < s.drop_first().len() implies !gone.contains(#[trigger] s.drop_first()[i]) by {
            assert(s.drop_first()[i] == s[i + 1]);
        }
        lemma_without_absent(s.drop_first(), gone);
        assert(seq![s[0]] + s.drop_first() =~= s);
    }
}

/// Replacing one character by nothing is removing it.
proof fn lemma_replace_char(s: Seq<char>, c: char)
    ensures
        replace(s, seq![c], Seq::empty()) == without_chars(s, seq![c]),
    decreases s.len(),
{
    if s.len() >= 1 {
        assert(s.subrange(0, 1) =~= seq![s[0]]);
        assert(s.subrange(1, s.len() as int) =~= s.drop_first());
        lemma_replace_char(s.drop_first(), c);
        assert(seq![c].contains(s[0]) <==> s[0] == c) by {
            if seq![c].contains(s[0]) {
                let j = choose|j: int| 0 <= j < 1 && seq![c][j] == s[0];
            } else {
                assert(seq![c][0] == c);
            }
        }
        if s[0] == c {
            assert(replace(s, seq![c], Seq::empty()) =~= replace(s.drop_first(), seq![c], Seq::empty()));
            assert(without_chars(s, seq![c]) =~= without_chars(s.drop_first(), seq![c]));
        } else {
            assert(s.subrange(0, 1) != seq![c]) by {
                assert(s.subrange(0, 1)[0] == s[0]);
            }
            assert(replace(s, seq![c], Seq::empty()) == seq![s[0]] + replace(s.drop_first(), seq![c], Seq::empty()));
            assert(without_chars(s, seq![c]) == seq![s[0]] + without_chars(s.drop_first(), seq![c]));
        }
    } else {
        assert(s =~= Seq::<char>::empty());
        assert(without_chars(s, seq![c]) =~= Seq::<char>::empty());
    }
}

/// A sanitized name holds none of the forbidden characters and no NUL, has no
/// whitespace at either end, and sanitizing it again gives it back unchanged.
pub proof fn law_sanitized_clean(name: Seq<char>)
    ensures
        forall|i: int| 0 <= i < sanitized(name).len() ==> !forbidden_chars().contains(#[trigger] sanitized(name)[i])
            && sanitized(name)[i] != '\0',
        trim(sanitized(name)) == sanitized(name),
        sanitized(sanitized(name)) == sanitized(name),
{
    let w = without_chars(name, forbidden_chars());
    let a = replace(w, seq!['\0'], Seq::empty());
    lemma_without_chars(name, forbidden_chars());
    lemma_replace_char(w, '\0');
    lemma_without_chars(w, seq!['\0']);
    lemma_trim_start_shape(a);
    lemma_trim_end_shape(trim_start(a));
    let t = trim_start(a);
    let r = trim_end(t);
    assert(r == sanitized(name));
    assert forall|i: int| 0 <= i < r.len() implies !forbidden_chars().contains(#[trigger] r[i]) && r[i] != '\0' by {
        assert(r[i] == t[i]);
        assert(t[i] == a[a.len() - t.len() + i]);
        let k = a.len() - t.len() + i;
        assert(!seq!['\0'].contains(a[k]));
        assert(seq!['\0'][0] == '\0');
        assert(w.contains(a[k]));
        let j = choose|j: int| 0 <= j < w.len() && w[j] == a[k];
        assert(!forbidden_chars().contains(w[j]));
    }
    lemma_trim_idempotent(a);
    lemma_without_absent(r, forbidden_chars());
    assert forall|i: int| 0 <= i < r.len() implies !seq!['\0'].contains(#[trigger] r[i]) by {
        if seq!['\0'].contains(r[i]) {
            let j = choose|j: int| 0 <= j < 1 && seq!['\0'][j] == r[i];
        }
    }
    lemma_replace_char(r, '\0');
    lemma_without_absent(r, seq!['\0']);
}

/// `template` with `{name:02}` replaced by `value` in two digits and then
/// `{name}` by `value`.
pub open spec fn numeric_placeholder(template: Seq<char>, name: Seq<char>, value: u32) -> Seq<char> {
    replace(
        replace(template, "{"@ + name + ":02}"@, decimal2(value as nat)),
        "{"@ + name + "}"@,
        decimal(value as nat),
    )
}

/// Fills the numeric placeholder `name` of `template` with `value`.
pub fn apply_numeric_placeholder(template: &str, name: &str, value: u32) -> (r: String)
    ensures
        r@ == numeric_placeholder(template@, name@, value),
{
    let mut padded = own("{");
    append(&mut padded, name);
    append(&mut padded, ":02}");
    let mut plain = own("{");
    append(&mut plain, name);
    append(&mut plain, "}");
    let mut two = String::new();
    push_decimal2(&mut two, value);
    let mut one = String::new();
    push_decimal(&mut one, value);
    proof {
        reveal_strlit("{");
        assert(padded@.len() > 0);
        assert(plain@.len() > 0);
    }
    assert(two@ =~= decimal2(value as nat));
    assert(one@ =~= decimal(value as nat));
    let a = replace_str(template, padded.as_str(), two.as_str());
    replace_str(a.as_str(), plain.as_str(), one.as_str())
}

/// The template with its placeholders filled: the anime's name, the episode's
/// title, then the season and episode numbers.
pub open spec fn filled(template: Seq<char>, anime: Seq<char>, title: Seq<char>, season: u32, number: u32) -> Seq<char> {
    let a = replace(template, "{anime}"@, anime);
    let b = replace(a, "{title}"@, title);
    let c = numeric_placeholder(b, "season"@, season);
    numeric_placeholder(c, "episode"@, number)
}

/// The file name that the template gives for an episode of an anime.
pub open spec fn rendered_name(template: Seq<char>, anime_title: Seq<char>, episode: EpisodeInfo) -> Seq<char> {
    filled(template, sanitized(anime_title), sanitized(episode.title@), episode.season, episode.number)
}

/// Where an episode is saved: the rendered name itself when it is an
/// absolute path, else under the download folder.
pub open spec fn output_path(settings: AppSettings, anime_title: Seq<char>, episode: EpisodeInfo) -> Seq<char> {
    let name = rendered_name(settings.naming_template@, anime_title, episode);
    if absolute_path(name) {
        name
    } else {
        joined_path(settings.download_folder@, name)
    }
}

/// The path an episode of an anime is saved to.
pub fn build_output_path(settings: &AppSettings, anime_title: &str, episode: &EpisodeInfo) -> (r: String)
    ensures
        r@ == output_path(*settings, anime_title@, *episode),
{
    let anime = sanitize_filename(anime_title);
    let title = sanitize_filename(episode.title.as_str());
    proof {
        reveal_strlit("{anime}");
        reveal_strlit("{title}");
    }
    let a = replace_str(settings.naming_template.as_str(), "{anime}", anime.as_str());
    let b = replace_str(a.as_str(), "{title}", title.as_str());
    let c = apply_numeric_placeholder(b.as_str(), "season", episode.season);
    let d = apply_numeric_placeholder(c.as_str(), "episode", episode.number);
    if is_absolute_path(d.as_str()) {
        d
    } else {
        join_path(settings.download_folder.as_str(), d.as_str())
    }
}

/// `s` holds no `{`, so no placeholder can begin inside it.
pub open spec fn brace_free(s: Seq<char>) -> bool {
    forall|i: int| 0 <= i < s.len() ==> s[i] != '{'
}

/// `c` is a placeholder such as `{season}`: braces at both ends and nowhere else.
pub open spec fn placeholder(c: Seq<char>) -> bool {
    &&& c.len() >= 2
    &&& c[0] == '{'
    &&& c.last() == '}'
    &&& forall|i: int| 0 < i < c.len() - 1 ==> c[i] != '{' && c[i] != '}'
}

/// The pieces of a template, joined.
pub open spec fn joined(cs: Seq<Seq<char>>) -> Seq<char>
    decreases cs.len(),
{
    if cs.len() == 0 {
        seq![]
    } else {
        cs[0] + joined(cs.drop_first())
    }
}

/// Each piece that is `p` put as `q`.
pub open spec fn put(cs: Seq<Seq<char>>, p: Seq<char>, q: Seq<char>) -> Seq<Seq<char>> {
    cs.map_values(|c: Seq<char>| if c == p { q } else { c })
}

/// A piece that replacing the placeholder `p` passes over whole: `p` itself,
/// text without braces, or another placeholder.
pub open spec fn piece_ok(c: Seq<char>, p: Seq<char>) -> bool {
    c == p || brace_free(c) || (placeholder(c) && c != p)
}

/// Text without `{` is passed over by a replacement of a placeholder.
proof fn lemma_replace_skip(x: Seq<char>, y: Seq<char>, p: Seq<char>, q: Seq<char>)
    requires
        placeholder(p),
        brace_free(x),
    ensures
        replace(x + y, p, q) == x + replace(y, p, q),
    decreases x.len(),
{
    let z = x + y;
    if x.len() == 0 {
        assert(z =~= y);
    } else if z.len() < p.len() {
        assert(replace(y, p, q) == y);
    } else {
        assert(z.subrange(0, p.len() as int)[0] == x[0]);
        assert(z.subrange(0, p.len() as int) != p);
        assert(z.drop_first() =~= x.drop_first() + y);
        lemma_replace_skip(x.drop_first(), y, p, q);
        assert(z =~= seq![x[0]] + x.drop_first() + y);
        assert(replace(z, p, q) == seq![z[0]] + replace(z.drop_first(), p, q));
        assert(seq![x[0]] + x.drop_first() =~= x);
    }
}

/// Another placeholder is passed over whole by a replacement of `p`.
proof fn lemma_replace_other(c: Seq<char>, y: Seq<char>, p: Seq<char>, q: Seq<char>)
    requires
        placeholder(p),
        placeholder(c),
        c != p,
    ensures
        replace(c + y, p, q) == c + replace(y, p, q),
{
    let z = c + y;
    if z.len() >= p.len() {
        if z.subrange(0, p.len() as int) == p {
            if c.len() <= p.len() {
                assert(p[c.len() - 1] == c.last());
                assert(c.len() - 1 == p.len() - 1);
                assert(c =~= p);
            } else {
                assert(c[p.len() - 1] == p.last());
            }
        }
        assert(z.drop_first() =~= c.drop_first() + y);
        lemma_replace_skip(c.drop_first(), y, p, q);
        assert(seq![c[0]] + c.drop_first() =~= c);
        assert(z =~= seq![c[0]] + (c.drop_first() + y));
    } else {
        assert(replace(y, p, q) == y);
    }
}

/// Replacing the placeholder `p` in joined pieces puts `q` in place of each piece
/// that is `p`, when every piece is passed over whole or is `p`.
proof fn lemma_replace_pieces(cs: Seq<Seq<char>>, p: Seq<char>, q: Seq<char>)
    requires
        placeholder(p),
        forall|k: int| 0 <= k < cs.len() ==> piece_ok(#[trigger] cs[k], p),
    ensures
        replace(joined(cs), p, q) == joined(put(cs, p, q)),
    decreases cs.len(),
{
    if cs.len() > 0 {
        let c = cs[0];
        let rest = cs.drop_first();
        lemma_replace_pieces(rest, p, q);
        assert(put(rest, p, q) =~= put(cs, p, q).drop_first());
        assert(joined(put(cs, p, q)) == put(cs, p, q)[0] + joined(put(rest, p, q)));
        if c == p {
            assert(joined(cs).subrange(0, p.len() as int) =~= p);
            assert(joined(cs).subrange(p.len() as int, joined(cs).len() as int) =~= joined(rest));
        } else if brace_free(c) {
            lemma_replace_skip(c, joined(rest), p, q);
        } else {
            lemma_replace_other(c, joined(rest), p, q);
        }
    } else {
        assert(put(cs, p, q) =~= cs);
    }
}

/// Decimal digits hold no `{`.
pub(crate) proof fn lemma_decimal_brace_free(n: nat)
    ensures
        brace_free(decimal(n)),
        brace_free(decimal2(n)),
        !decimal(n).contains('/'),
        !decimal2(n).contains('/'),
    decreases n,
{
    if n >= 10 {
        lemma_decimal_brace_free(n / 10);
    }
}

/// The placeholders of the default template.
pub open spec fn ph_anime() -> Seq<char> {
    seq!['{', 'a', 'n', 'i', 'm', 'e', '}']
}

pub open spec fn ph_title() -> Seq<char> {
    seq!['{', 't', 'i', 't', 'l', 'e', '}']
}

pub open spec fn ph_season2() -> Seq<char> {
    seq!['{', 's', 'e', 'a', 's', 'o', 'n', ':', '0', '2', '}']
}

pub open spec fn ph_season() -> Seq<char> {
    seq!['{', 's', 'e', 'a', 's', 'o', 'n', '}']
}

pub open spec fn ph_episode2() -> Seq<char> {
    seq!['{', 'e', 'p', 'i', 's', 'o', 'd', 'e', ':', '0', '2', '}']
}

pub open spec fn ph_episode() -> Seq<char> {
    seq!['{', 'e', 'p', 'i', 's', 'o', 'd', 'e', '}']
}

/// The default template, cut at its placeholders.
pub open spec fn default_pieces() -> Seq<Seq<char>> {
    seq![
        ph_anime(),
        "/Season "@,
        ph_season(),
        "/"@,
        ph_anime(),
        " - S"@,
        ph_season2(),
        "E"@,
        ph_episode2(),
        " - "@,
        ph_title(),
        ".mp4"@,
    ]
}

proof fn lemma_default_pieces()
    ensures
        joined(default_pieces()) == default_naming_template(),
        "{anime}"@ == ph_anime(),
        "{title}"@ == ph_title(),
        "{"@ + "season"@ + ":02}"@ == ph_season2(),
        "{"@ + "season"@ + "}"@ == ph_season(),
        "{"@ + "episode"@ + ":02}"@ == ph_episode2(),
        "{"@ + "episode"@ + "}"@ == ph_episode(),
        brace_free("/Season "@),
        brace_free("/"@),
        brace_free(" - S"@),
        brace_free("E"@),
        brace_free(" - "@),
        brace_free(".mp4"@),
{
    reveal_strlit("{anime}/Season {season}/{anime} - S{season:02}E{episode:02} - {title}.mp4");
    reveal_strlit("{anime}");
    reveal_strlit("{title}");
    reveal_strlit("{");
    reveal_strlit("}");
    reveal_strlit(":02}");
    reveal_strlit("season");
    reveal_strlit("episode");
    reveal_strlit("/Season ");
    reveal_strlit("/");
    reveal_strlit(" - S");
    reveal_strlit("E");
    reveal_strlit(" - ");
    reveal_strlit(".mp4");
    reveal_with_fuel(joined, 13);
    assert(joined(default_pieces()) =~= default_naming_template());
    assert("{anime}"@ =~= ph_anime());
    assert("{title}"@ =~= ph_title());
    assert("{"@ + "season"@ + ":02}"@ =~= ph_season2());
    assert("{"@ + "season"@ + "}"@ =~= ph_season());
    assert("{"@ + "episode"@ + ":02}"@ =~= ph_episode2());
    assert("{"@ + "episode"@ + "}"@ =~= ph_episode());
}

proof fn lemma_placeholders()
    ensures
        placeholder(ph_anime()),
        placeholder(ph_title()),
        placeholder(ph_season2()),
        placeholder(ph_season()),
        placeholder(ph_episode2()),
        placeholder(ph_episode()),
        ph_anime() != ph_title() && ph_anime() != ph_season2() && ph_anime() != ph_season() && ph_anime() != ph_episode2(),
        ph_title() != ph_season2() && ph_title() != ph_season() && ph_title() != ph_episode2(),
        ph_season2() != ph_season() && ph_season2() != ph_episode2(),
        ph_season() != ph_episode2(),
{
    assert(ph_anime()[1] == 'a' && ph_title()[1] == 't' && ph_season()[1] == 's' && ph_season2()[1] == 's'
        && ph_episode2()[1] == 'e');
    assert(ph_season().len() != ph_season2().len());
}

/// Text without braces is no placeholder.
proof fn lemma_not_placeholder(x: Seq<char>, p: Seq<char>)
    requires
        brace_free(x),
        placeholder(p),
    ensures
        x != p,
{
    if x == p {
        assert(x[0] == '{');
    }
}

/// Text without braces is none of the template's placeholders.
proof fn lemma_plain(x: Seq<char>)
    requires
        brace_free(x),
    ensures
        x != ph_anime() && x != ph_title() && x != ph_season2() && x != ph_season() && x != ph_episode2()
            && x != ph_episode(),
{
    lemma_placeholders();
    lemma_not_placeholder(x, ph_anime());
    lemma_not_placeholder(x, ph_title());
    lemma_not_placeholder(x, ph_season2());
    lemma_not_placeholder(x, ph_season());
    lemma_not_placeholder(x, ph_episode2());
    lemma_not_placeholder(x, ph_episode());
}

/// One replacement pass over pieces, given what each piece becomes.
proof fn lemma_pass(cs: Seq<Seq<char>>, p: Seq<char>, q: Seq<char>, out: Seq<Seq<char>>)
    requires
        placeholder(p),
        cs.len() == out.len(),
        forall|k: int|
            0 <= k < cs.len() ==> (#[trigger] cs[k] == p && out[k] == q) || (cs[k] != p && out[k] == cs[k]
                && piece_ok(cs[k], p)),
    ensures
        replace(joined(cs), p, q) == joined(out),
{
    lemma_replace_pieces(cs, p, q);
    assert(put(cs, p, q) =~= out);
}

/// The passes of the default template over brace-free names and numbers.
#[verifier::rlimit(30)]
#[verifier::spinoff_prover]
pub(crate) proof fn lemma_render_default(a: Seq<char>, t: Seq<char>, season_u: u32, number_u: u32)
    requires
        brace_free(a),
        brace_free(t),
    ensures
        filled(default_naming_template(), a, t, season_u, number_u) == a + "/Season "@ + decimal(season_u as nat) + "/"@
            + a + " - S"@ + decimal2(season_u as nat) + "E"@ + decimal2(number_u as nat) + " - "@ + t + ".mp4"@,
{
    let season = season_u as nat;
    let number = number_u as nat;
    let ds = decimal(season);
    let ds2 = decimal2(season);
    let dn = decimal(number);
    let dn2 = decimal2(number);
    lemma_decimal_brace_free(season);
    lemma_decimal_brace_free(number);
    lemma_default_pieces();
    lemma_placeholders();
    let l1 = "/Season "@;
    let l2 = "/"@;
    let l3 = " - S"@;
    let l4 = "E"@;
    let l5 = " - "@;
    let l6 = ".mp4"@;
    let c0 = default_pieces();
    let c1 = seq![a, l1, ph_season(), l2, a, l3, ph_season2(), l4, ph_episode2(), l5, ph_title(), l6];
    let c2 = seq![a, l1, ph_season(), l2, a, l3, ph_season2(), l4, ph_episode2(), l5, t, l6];
    let c3 = seq![a, l1, ph_season(), l2, a, l3, ds2, l4, ph_episode2(), l5, t, l6];
    let c4 = seq![a, l1, ds, l2, a, l3, ds2, l4, ph_episode2(), l5, t, l6];
    let c5 = seq![a, l1, ds, l2, a, l3, ds2, l4, dn2, l5, t, l6];
    lemma_plain(a);
    lemma_plain(t);
    lemma_plain(ds);
    lemma_plain(ds2);
    lemma_plain(dn2);
    lemma_plain(l1);
    lemma_plain(l2);
    lemma_plain(l3);
    lemma_plain(l4);
    lemma_plain(l5);
    lemma_plain(l6);
    lemma_pass(c0, ph_anime(), a, c1);
    lemma_pass(c1, ph_title(), t, c2);
    lemma_pass(c2, ph_season2(), ds2, c3);
    lemma_pass(c3, ph_season(), ds, c4);
    lemma_pass(c4, ph_episode2(), dn2, c5);
    lemma_pass(c5, ph_episode(), dn, c5);
    lemma_joined_twelve(c5);
}

/// Twelve pieces joined are the pieces one after another.
proof fn lemma_joined_twelve(c: Seq<Seq<char>>)
    requires
        c.len() == 12,
    ensures
        joined(c) == c[0] + c[1] + c[2] + c[3] + c[4] + c[5] + c[6] + c[7] + c[8] + c[9] + c[10] + c[11],
{
    reveal_with_fuel(joined, 13);
    assert(joined(c) =~= c[0] + c[1] + c[2] + c[3] + c[4] + c[5] + c[6] + c[7] + c[8] + c[9] + c[10] + c[11]);
}

/// Joining two texts without `c` gives a text without `c`.
pub(crate) proof fn lemma_join_without(x: Seq<char>, y: Seq<char>, c: char)
    requires
        !x.contains(c),
        !y.contains(c),
    ensures
        !(x + y).contains(c),
{
    if (x + y).contains(c) {
        let k = choose|k: int| 0 <= k < (x + y).len() && (x + y)[k] == c;
        if k < x.len() {
            assert(x[k] == c);
        } else {
            assert(y[k - x.len()] == c);
        }
    }
}

/// Replacing a placeholder by text without `c`, in text without `c`, leaves no `c`.
proof fn lemma_replace_without(s: Seq<char>, p: Seq<char>, q: Seq<char>, c: char)
    requires
        !s.contains(c),
        !q.contains(c),
    ensures
        !replace(s, p, q).contains(c),
    decreases s.len(),
{
    if p.len() == 0 || s.len() < p.len() {
    } else if s.subrange(0, p.len() as int) == p {
        let rest = s.subrange(p.len() as int, s.len() as int);
        assert(!rest.contains(c)) by {
            if rest.contains(c) {
                let k = choose|k: int| 0 <= k < rest.len() && rest[k] == c;
                assert(s[k + p.len()] == c);
            }
        }
        lemma_replace_without(rest, p, q, c);
        lemma_join_without(q, replace(rest, p, q), c);
    } else {
        assert(!s.drop_first().contains(c)) by {
            if s.drop_first().contains(c) {
                let k = choose|k: int| 0 <= k < s.drop_first().len() && s.drop_first()[k] == c;
                assert(s[k + 1] == c);
            }
        }
        assert(!seq![s[0]].contains(c)) by {
            if seq![s[0]].contains(c) {
                assert(seq![s[0]][0] == s[0]);
                assert(s[0] == c);
            }
        }
        lemma_replace_without(s.drop_first(), p, q, c);
        lemma_join_without(seq![s[0]], replace(s.drop_first(), p, q), c);
    }
}

/// Pieces joined, then more pieces joined, are all the pieces joined.
proof fn lemma_joined_append(x: Seq<Seq<char>>, y: Seq<Seq<char>>)
    ensures
        joined(x + y) == joined(x) + joined(y),
    decreases x.len(),
{
    if x.len() == 0 {
        assert(x + y =~= y);
        assert(joined(x) + joined(y) =~= joined(y));
    } else {
        lemma_joined_append(x.drop_first(), y);
        assert((x + y).drop_first() =~= x.drop_first() + y);
        assert((x + y)[0] == x[0]);
        assert(joined(x) + joined(y) =~= x[0] + (joined(x.drop_first()) + joined(y)));
    }
}

/// Replacing the placeholder `p` in pieces that are passed over whole or are
/// `p`, followed by any text: the pieces are put in place, the text replaced.
proof fn lemma_replace_prefix(cs: Seq<Seq<char>>, y: Seq<char>, p: Seq<char>, q: Seq<char>)
    requires
        placeholder(p),
        forall|k: int| 0 <= k < cs.len() ==> piece_ok(#[trigger] cs[k], p),
    ensures
        replace(joined(cs) + y, p, q) == joined(put(cs, p, q)) + replace(y, p, q),
    decreases cs.len(),
{
    if cs.len() == 0 {
        assert(joined(cs) + y =~= y);
        assert(put(cs, p, q) =~= cs);
        assert(joined(put(cs, p, q)) + replace(y, p, q) =~= replace(y, p, q));
    } else {
        let c = cs[0];
        let rest = cs.drop_first();
        let tail = joined(rest) + y;
        lemma_replace_prefix(rest, y, p, q);
        assert(put(rest, p, q) =~= put(cs, p, q).drop_first());
        assert(joined(cs) + y =~= c + tail);
        if c == p {
            let z = c + tail;
            assert(z.subrange(0, p.len() as int) =~= p);
            assert(z.subrange(p.len() as int, z.len() as int) =~= tail);
        } else if brace_free(c) {
            lemma_replace_skip(c, tail, p, q);
        } else {
            lemma_replace_other(c, tail, p, q);
        }
        assert(joined(put(cs, p, q)) == put(cs, p, q)[0] + joined(put(rest, p, q)));
        assert(put(cs, p, q)[0] + (joined(put(rest, p, q)) + replace(y, p, q)) =~= joined(put(cs, p, q))
            + replace(y, p, q));
    }
}

/// The file part of the default template with its anime and title put in.
pub open spec fn file_template(anime: Seq<char>, title: Seq<char>) -> Seq<char> {
    anime + " - S"@ + ph_season2() + "E"@ + ph_episode2() + " - "@ + title + ".mp4"@
}

/// The file part of the default template once its anime and title are put in:
/// `<anime> - S<nn>E<nn> - <title>.mp4`, with the numbers then filled in
/// everywhere (a title that names a placeholder has it filled too).
pub open spec fn default_file_part(anime: Seq<char>, title: Seq<char>, season: u32, number: u32) -> Seq<char> {
    numeric_placeholder(numeric_placeholder(file_template(anime, title), "season"@, season), "episode"@, number)
}

/// The folder part of the default template with its anime put in.
pub open spec fn head_pieces(anime: Seq<char>) -> Seq<Seq<char>> {
    seq![anime, "/Season "@, ph_season(), "/"@]
}

/// Putting the anime and the title into the default template.
#[verifier::spinoff_prover]
proof fn lemma_names_put(a: Seq<char>, t: Seq<char>)
    requires
        brace_free(a),
    ensures
        replace(replace(default_naming_template(), "{anime}"@, a), "{title}"@, t) == joined(head_pieces(a))
            + file_template(a, t),
{
    lemma_default_pieces();
    lemma_placeholders();
    let l1 = "/Season "@;
    let l2 = "/"@;
    let l3 = " - S"@;
    let l4 = "E"@;
    let l5 = " - "@;
    let l6 = ".mp4"@;
    lemma_plain(a);
    lemma_plain(l1);
    lemma_plain(l2);
    lemma_plain(l3);
    lemma_plain(l4);
    lemma_plain(l5);
    lemma_plain(l6);
    let c0 = default_pieces();
    let c1 = seq![a, l1, ph_season(), l2, a, l3, ph_season2(), l4, ph_episode2(), l5, ph_title(), l6];
    let c2 = seq![a, l1, ph_season(), l2, a, l3, ph_season2(), l4, ph_episode2(), l5, t, l6];
    lemma_pass(c0, ph_anime(), a, c1);
    lemma_pass(c1, ph_title(), t, c2);
    let post = seq![a, l3, ph_season2(), l4, ph_episode2(), l5, t, l6];
    assert(c2 =~= head_pieces(a) + post);
    lemma_joined_append(head_pieces(a), post);
    assert(joined(post) =~= file_template(a, t)) by {
        reveal_with_fuel(joined, 9);
    }
}

/// Filling the numbers into the folder part and any file part.
#[verifier::spinoff_prover]
proof fn lemma_numbers_put(a: Seq<char>, y: Seq<char>, season_u: u32, number_u: u32)
    requires
        brace_free(a),
    ensures
        numeric_placeholder(
            numeric_placeholder(joined(head_pieces(a)) + y, "season"@, season_u),
            "episode"@,
            number_u,
        ) == a + "/Season "@ + decimal(season_u as nat) + "/"@ + numeric_placeholder(
            numeric_placeholder(y, "season"@, season_u),
            "episode"@,
            number_u,
        ),
{
    let ds = decimal(season_u as nat);
    let ds2 = decimal2(season_u as nat);
    let dn = decimal(number_u as nat);
    let dn2 = decimal2(number_u as nat);
    lemma_decimal_brace_free(season_u as nat);
    lemma_decimal_brace_free(number_u as nat);
    lemma_default_pieces();
    lemma_placeholders();
    let l1 = "/Season "@;
    let l2 = "/"@;
    lemma_plain(a);
    lemma_plain(ds);
    lemma_plain(l1);
    lemma_plain(l2);
    let pre = head_pieces(a);
    let pre4 = seq![a, l1, ds, l2];
    let y3 = replace(y, ph_season2(), ds2);
    let y4 = replace(y3, ph_season(), ds);
    let y5 = replace(y4, ph_episode2(), dn2);
    lemma_replace_prefix(pre, y, ph_season2(), ds2);
    assert(put(pre, ph_season2(), ds2) =~= pre);
    lemma_replace_prefix(pre, y3, ph_season(), ds);
    assert(put(pre, ph_season(), ds) =~= pre4);
    lemma_replace_prefix(pre4, y4, ph_episode2(), dn2);
    assert(put(pre4, ph_episode2(), dn2) =~= pre4);
    lemma_replace_prefix(pre4, y5, ph_episode(), dn);
    assert(put(pre4, ph_episode(), dn) =~= pre4);
    assert(joined(pre4) =~= a + l1 + ds + l2) by {
        reveal_with_fuel(joined, 5);
    }
}

/// The file part holds no `/` when the anime and the title hold none.
proof fn lemma_file_part_no_slash(a: Seq<char>, t: Seq<char>, season_u: u32, number_u: u32)
    requires
        !a.contains('/'),
        !t.contains('/'),
    ensures
        !default_file_part(a, t, season_u, number_u).contains('/'),
{
    lemma_decimal_brace_free(season_u as nat);
    lemma_decimal_brace_free(number_u as nat);
    lemma_default_pieces();
    lemma_no_slash_pieces();
    let l3 = " - S"@;
    let l4 = "E"@;
    let l5 = " - "@;
    let l6 = ".mp4"@;
    lemma_join_without(a, l3, '/');
    lemma_join_without(a + l3, ph_season2(), '/');
    lemma_join_without(a + l3 + ph_season2(), l4, '/');
    lemma_join_without(a + l3 + ph_season2() + l4, ph_episode2(), '/');
    lemma_join_without(a + l3 + ph_season2() + l4 + ph_episode2(), l5, '/');
    lemma_join_without(a + l3 + ph_season2() + l4 + ph_episode2() + l5, t, '/');
    lemma_join_without(a + l3 + ph_season2() + l4 + ph_episode2() + l5 + t, l6, '/');
    let y2 = file_template(a, t);
    let y3 = replace(y2, ph_season2(), decimal2(season_u as nat));
    let y4 = replace(y3, ph_season(), decimal(season_u as nat));
    let y5 = replace(y4, ph_episode2(), decimal2(number_u as nat));
    lemma_replace_without(y2, ph_season2(), decimal2(season_u as nat), '/');
    lemma_replace_without(y3, ph_season(), decimal(season_u as nat), '/');
    lemma_replace_without(y4, ph_episode2(), decimal2(number_u as nat), '/');
    lemma_replace_without(y5, ph_episode(), decimal(number_u as nat), '/');
}

/// The default template over any episode title: the anime's folder, then
/// `Season <n>`, then a file part without `/`.
pub(crate) proof fn lemma_render_general(a: Seq<char>, t: Seq<char>, season_u: u32, number_u: u32)
    requires
        brace_free(a),
        !a.contains('/'),
        !t.contains('/'),
    ensures
        filled(default_naming_template(), a, t, season_u, number_u) == a + "/Season "@ + decimal(season_u as nat) + "/"@
            + default_file_part(a, t, season_u, number_u),
        !default_file_part(a, t, season_u, number_u).contains('/'),
{
    lemma_names_put(a, t);
    lemma_numbers_put(a, file_template(a, t), season_u, number_u);
    lemma_file_part_no_slash(a, t, season_u, number_u);
}

/// The literal pieces and placeholders of the default file part hold no `/`.
proof fn lemma_no_slash_pieces()
    ensures
        !" - S"@.contains('/'),
        !"E"@.contains('/'),
        !" - "@.contains('/'),
        !".mp4"@.contains('/'),
        !ph_season2().contains('/'),
        !ph_episode2().contains('/'),
{
    reveal_strlit(" - S");
    reveal_strlit("E");
    reveal_strlit(" - ");
    reveal_strlit(".mp4");
    assert(!ph_season2().contains('/')) by {
        if ph_season2().contains('/') {
            let k = choose|k: int| 0 <= k < ph_season2().len() && ph_season2()[k] == '/';
        }
    }
    assert(!ph_episode2().contains('/')) by {
        if ph_episode2().contains('/') {
            let k = choose|k: int| 0 <= k < ph_episode2().len() && ph_episode2()[k] == '/';
        }
    }
}

} // verus!
