//! What the user is told when a download finishes, fails, or the queue empties.

use vstd::prelude::*;
use crate::models::DownloadStatus;
use crate::outside::push_char;
use crate::text::{append, chars_of, own};

verus! {

/// The number of bytes that UTF-8 takes for `c`.
pub open spec fn utf8_width(c: char) -> nat {
    if (c as u32) < 0x80 {
        1
    } else if (c as u32) < 0x800 {
        2
    } else if (c as u32) < 0x10000 {
        3
    } else {
        4
    }
}

/// The longest start of `s` that fits in `max` bytes of UTF-8.
pub open spec fn prefix_within(s: Seq<char>, max: nat) -> Seq<char>
    decreases s.len(),
{
    if s.len() == 0 || utf8_width(s[0]) > max {
        Seq::empty()
    } else {
        seq![s[0]] + prefix_within(s.drop_first(), (max - utf8_width(s[0])) as nat)
    }
}

/// `text` when it has at most `max` characters; else its longest start that
/// fits in `max` bytes, followed by an ellipsis.
pub open spec fn truncated(text: Seq<char>, max: nat) -> Seq<char> {
    if text.len() <= max {
        text
    } else {
        prefix_within(text, max) + "…"@
    }
}

/// The UTF-8 width of a character.
fn width(c: char) -> (r: usize)
    ensures
        r == utf8_width(c),
{
    if (c as u32) < 0x80 {
        1
    } else if (c as u32) < 0x800 {
        2
    } else if (c as u32) < 0x10000 {
        3
    } else {
        4
    }
}

/// Shortens `text` to `max` characters' worth of bytes, marking the cut.
pub fn truncate(text: &str, max: usize) -> (r: String)
    ensures
        r@ == truncated(text@, max as nat),
{
    let v = chars_of(text);
    if v.len() <= max {
        return own(text);
    }
    let mut out = String::new();
    let mut room: usize = max;
    let mut k: usize = 0;
    assert(v@.subrange(0, v@.len() as int) =~= v@);
    while k < v.len() && width(v[k]) <= room
        invariant
            k <= v@.len(),
            room <= max,
            out@ == v@.take(k as int),
            prefix_within(v@, max as nat) == v@.take(k as int) + prefix_within(
                v@.subrange(k as int, v@.len() as int),
                room as nat,
            ),
        decreases v@.len() - k,
    {
        let w = width(v[k]);
        proof {
            let rest = v@.subrange(k as int, v@.len() as int);
            assert(rest[0] == v@[k as int]);
            assert(rest.drop_first() =~= v@.subrange(k + 1, v@.len() as int));
            assert(v@.take(k + 1) =~= v@.take(k as int) + seq![v@[k as int]]);
            assert(v@.take(k as int) + (seq![v@[k as int]] + prefix_within(rest.drop_first(), (room - w) as nat))
                =~= v@.take(k + 1) + prefix_within(rest.drop_first(), (room - w) as nat));
        }
        push_char(&mut out, v[k]);
        room = room - w;
        k += 1;
        assert(out@ =~= v@.take(k as int));
    }
    proof {
        let rest = v@.subrange(k as int, v@.len() as int);
        assert(prefix_within(rest, room as nat) =~= Seq::<char>::empty());
        assert(v@.take(k as int) + Seq::<char>::empty() =~= v@.take(k as int));
    }
    append(&mut out, "…");
    out
}

/// What a notice is about.
#[derive(Debug, Clone, Copy, PartialEq, Eq, Structural)]
pub enum NoticeKind {
    Completed,
    Failed,
    QueueIdle,
}

/// A notice: what it is about, its title and its body.
#[derive(Debug, Clone)]
pub struct Notice {
    pub kind: NoticeKind,
    pub title: String,
    pub body: String,
}

/// The notice of a finished download.
pub fn completed_notice(anime_title: &str, episode_label: &str) -> (r: Notice)
    ensures
        r.kind == NoticeKind::Completed,
        r.title@ == "Download concluído"@,
        r.body@ == anime_title@ + " — "@ + episode_label@,
{
    let mut body = own(anime_title);
    append(&mut body, " — ");
    append(&mut body, episode_label);
    Notice { kind: NoticeKind::Completed, title: own("Download concluído"), body }
}

/// The message shown for a failure without one.
pub open spec fn unknown_error() -> Seq<char> {
    "Erro desconhecido"@
}

/// The notice of a failed download, with its error shortened to 140 characters.
pub fn failed_notice(anime_title: &str, episode_label: &str, error: Option<&str>) -> (r: Notice)
    ensures
        r.kind == NoticeKind::Failed,
        r.title@ == "Download falhou"@,
        r.body@ == anime_title@ + " — "@ + episode_label@ + "\n"@ + truncated(
            match error {
                Some(e) => e@,
                None => unknown_error(),
            },
            140,
        ),
{
    let e = match error {
        Some(e) => e,
        None => "Erro desconhecido",
    };
    let mut body = own(anime_title);
    append(&mut body, " — ");
    append(&mut body, episode_label);
    append(&mut body, "\n");
    let t = truncate(e, 140);
    append(&mut body, t.as_str());
    Notice { kind: NoticeKind::Failed, title: own("Download falhou"), body }
}

/// The notice shown when the queue has emptied, with or without failures.
pub fn queue_idle_notice(has_failures: bool) -> (r: Notice)
    ensures
        r.kind == NoticeKind::QueueIdle,
        has_failures ==> r.title@ == "Fila de downloads finalizada"@ && r.body@
            == "Não há mais downloads em andamento. Verifique os episódios com erro na biblioteca."@,
        !has_failures ==> r.title@ == "Downloads finalizados"@ && r.body@
            == "Todos os episódios da fila foram baixados com sucesso."@,
{
    if has_failures {
        Notice {
            kind: NoticeKind::QueueIdle,
            title: own("Fila de downloads finalizada"),
            body: own(
                "Não há mais downloads em andamento. Verifique os episódios com erro na biblioteca.",
            ),
        }
    } else {
        Notice {
            kind: NoticeKind::QueueIdle,
            title: own("Downloads finalizados"),
            body: own("Todos os episódios da fila foram baixados com sucesso."),
        }
    }
}

/// The notice owed when a download changes from `previous` to `status`:
/// none when notices are off or nothing changed, one for a completion or a
/// failure, none otherwise.
pub fn on_status_changed(
    enabled: bool,
    previous: DownloadStatus,
    status: DownloadStatus,
    anime_title: &str,
    episode_label: &str,
    error: Option<&str>,
) -> (r: Option<Notice>)
    ensures
        r is Some <==> enabled && previous != status && (status == DownloadStatus::Completed || status
            == DownloadStatus::Failed),
        r matches Some(n) ==> (status == DownloadStatus::Completed ==> n.kind == NoticeKind::Completed
            && n.title@ == "Download concluído"@ && n.body@ == anime_title@ + " — "@ + episode_label@)
            && (status == DownloadStatus::Failed ==> n.kind == NoticeKind::Failed && n.title@
            == "Download falhou"@ && n.body@ == anime_title@ + " — "@ + episode_label@ + "\n"@
            + truncated(
            match error {
                Some(e) => e@,
                None => unknown_error(),
            },
            140,
        )),
{
    if !enabled || previous == status {
        return None;
    }
    match status {
        DownloadStatus::Completed => Some(completed_notice(anime_title, episode_label)),
        DownloadStatus::Failed => Some(failed_notice(anime_title, episode_label, error)),
        _ => None,
    }
}

} // verus!
