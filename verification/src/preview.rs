//! Server-generated destroy preview for change-set approval.
//!
//! The preview is the evidence a human approver reads before approving a
//! destructive operation. It renders the server's own account of the target
//! rather than the calling agent's claim, so an agent cannot fabricate the
//! protection status or the override authority.
use vstd::prelude::*;
use vstd::string::*;

use crate::fingerprint::{GuestState, StateView};
use crate::order::sized_view;
use crate::protect::{Override, OverrideView};
use crate::text::{
    decimal, decimal_text, has_text, join, join_texts, lemma_has_end, lemma_has_inner,
    lemma_has_middle, lemma_join_has_parts, lemma_texts_push, lemma_together, str_option, texts,
};

verus! {

/// Input for rendering a destroy preview.
#[derive(Debug)]
pub struct PreviewInput<'a> {
    /// Guest state snapshot.
    pub state: &'a GuestState,
    /// Whether the guest is protected.
    pub protected: bool,
    /// One-line protection summary.
    pub protection_summary: &'a str,
    /// Override allowing the operation, if any.
    pub override_: &'a Override,
    /// Number of snapshots.
    pub snapshots: usize,
    /// Latest snapshot name and date, if any.
    pub latest_snapshot: Option<&'a str>,
    /// Last backup date and retention count, if any.
    pub last_backup: Option<&'a str>,
    /// Whether to purge disks after destroy.
    pub purge_disks: bool,
}

/// What a destroy preview is rendered from, as mathematical values.
pub struct PreviewView {
    pub state: StateView,
    pub protected: bool,
    pub override_: OverrideView,
    pub snapshots: nat,
    pub latest_snapshot: Option<Seq<char>>,
    pub last_backup: Option<Seq<char>>,
    pub purge_disks: bool,
}

impl<'a> View for PreviewInput<'a> {
    type V = PreviewView;

    open spec fn view(&self) -> PreviewView {
        PreviewView {
            state: self.state@,
            protected: self.protected,
            override_: self.override_@,
            snapshots: self.snapshots as nat,
            latest_snapshot: str_option(self.latest_snapshot),
            last_backup: str_option(self.last_backup),
            purge_disks: self.purge_disks,
        }
    }
}

/// A byte count in whole gibibytes, else whole mebibytes, else bytes.
pub open spec fn size_text(bytes: u64) -> Seq<char> {
    if bytes >= 1024 * 1024 * 1024 {
        decimal((bytes as nat) / (1024 * 1024 * 1024)) + "G"@
    } else if bytes >= 1024 * 1024 {
        decimal((bytes as nat) / (1024 * 1024)) + "M"@
    } else {
        decimal(bytes as nat) + "B"@
    }
}

/// Each disk as its name and size.
pub open spec fn disk_texts(disks: Seq<(Seq<char>, u64)>) -> Seq<Seq<char>> {
    disks.map_values(|d: (Seq<char>, u64)| d.0 + " "@ + size_text(d.1))
}

pub open spec fn header_line(s: StateView) -> Seq<char> {
    "DESTROY  "@ + s.cluster + " / "@ + decimal(s.vmid as nat) + " "@ + s.name + "  ("@ + s.kind
        + ", "@ + s.status + ")"@
}

pub open spec fn tags_line(input: PreviewView) -> Seq<char> {
    if input.state.tags.len() == 0 {
        "  tags       (none)"@
    } else if input.protected {
        "  tags       "@ + join(input.state.tags, ", "@) + "          ← PROTECTED"@
    } else {
        "  tags       "@ + join(input.state.tags, ", "@)
    }
}

pub open spec fn disks_line(input: PreviewView) -> Seq<char> {
    "  disks      "@ + (if input.state.disks.len() == 0 {
        "(none)"@
    } else {
        join(disk_texts(input.state.disks), ", "@)
    }) + "    (purge: "@ + (if input.purge_disks {
        "yes"@
    } else {
        "no"@
    }) + ")"@
}

pub open spec fn snapshots_line(input: PreviewView) -> Seq<char> {
    match input.latest_snapshot {
        Some(latest) => "  snapshots  "@ + decimal(input.snapshots) + "   latest: "@ + latest,
        None => "  snapshots  "@ + decimal(input.snapshots),
    }
}

pub open spec fn backups_line(input: PreviewView) -> Seq<char> {
    match input.last_backup {
        Some(backup) => "  backups    last: "@ + backup,
        None => "  backups    none"@,
    }
}

pub open spec fn waiver_line(override_: OverrideView) -> Seq<char> {
    match override_ {
        OverrideView::NoOverride => "  waiver     none"@,
        OverrideView::Waiver { reason, ticket, .. } => match ticket {
            Some(ticket) => "  waiver     "@ + ticket + " — "@ + reason,
            None => "  waiver     "@ + reason,
        },
        OverrideView::LabMode => "  waiver     lab-mode"@,
    }
}

/// Whether the preview carries a refusal: a protected guest without an
/// override.
pub open spec fn refused(input: PreviewView) -> bool {
    input.protected && !input.override_.applies()
}

pub open spec fn verdict_line() -> Seq<char> {
    "  verdict    REFUSED — protected, no waiver"@
}

/// The lines of a preview: seven that are always there, and the verdict of a
/// refusal.
pub open spec fn preview_lines(input: PreviewView) -> Seq<Seq<char>> {
    let lines = seq![
        header_line(input.state),
        tags_line(input),
        "  node       "@ + input.state.node,
        disks_line(input),
        snapshots_line(input),
        backups_line(input),
        waiver_line(input.override_),
    ];
    if refused(input) {
        lines.push(verdict_line())
    } else {
        lines
    }
}

/// The text of a preview.
pub open spec fn preview_text(input: PreviewView) -> Seq<char> {
    join(preview_lines(input), "\n"@)
}

fn line(prefix: &str, text: &str) -> (r: String)
    ensures
        r@ == prefix@ + text@,
{
    let mut out = prefix.to_owned();
    out.append(text);
    out
}

fn render_header(s: &GuestState) -> (r: String)
    ensures
        r@ == header_line(s@),
{
    let mut out = line("DESTROY  ", s.cluster.as_str());
    out.append(" / ");
    out.append(decimal_text(s.vmid as u64).as_str());
    out.append(" ");
    out.append(s.name.as_str());
    out.append("  (");
    out.append(s.kind.as_str());
    out.append(", ");
    out.append(s.status.as_str());
    out.append(")");
    out
}

fn render_tags(input: &PreviewInput<'_>) -> (r: String)
    ensures
        r@ == tags_line(input@),
{
    if input.state.tags.len() == 0 {
        return "  tags       (none)".to_owned();
    }
    let mut out = line("  tags       ", join_texts(&input.state.tags, ", ").as_str());
    if input.protected {
        out.append("          ← PROTECTED");
    }
    out
}

/// Format a byte count as human-readable size.
pub fn format_size(bytes: u64) -> (r: String)
    ensures
        r@ == size_text(bytes),
{
    let gb: u64 = 1024 * 1024 * 1024;
    let mb: u64 = 1024 * 1024;
    if bytes >= gb {
        let mut out = decimal_text(bytes / gb);
        out.append("G");
        out
    } else if bytes >= mb {
        let mut out = decimal_text(bytes / mb);
        out.append("M");
        out
    } else {
        let mut out = decimal_text(bytes);
        out.append("B");
        out
    }
}

fn render_disk_list(disks: &Vec<(String, u64)>) -> (r: String)
    ensures
        r@ == join(disk_texts(sized_view(disks@)), ", "@),
{
    let ghost all = disk_texts(sized_view(disks@));
    let mut parts: Vec<String> = Vec::new();
    let mut i: usize = 0;
    proof {
        assert(texts(parts@) =~= all.take(0));
    }
    while i < disks.len()
        invariant
            i <= disks@.len(),
            all == disk_texts(sized_view(disks@)),
            texts(parts@) == all.take(i as int),
        decreases disks@.len() - i,
    {
        let mut part = disks[i].0.clone();
        part.append(" ");
        part.append(format_size(disks[i].1).as_str());
        proof {
            lemma_texts_push(parts@, part);
            assert(all[i as int] == part@);
            assert(all.take(i as int + 1) =~= all.take(i as int).push(part@));
        }
        parts.push(part);
        i += 1;
    }
    proof {
        assert(all.take(i as int) =~= all);
    }
    join_texts(&parts, ", ")
}

fn render_disks(input: &PreviewInput<'_>) -> (r: String)
    ensures
        r@ == disks_line(input@),
{
    let mut out = "  disks      ".to_owned();
    if input.state.disks.len() == 0 {
        out.append("(none)");
    } else {
        out.append(render_disk_list(&input.state.disks).as_str());
    }
    out.append("    (purge: ");
    out.append(
        if input.purge_disks {
            "yes"
        } else {
            "no"
        },
    );
    out.append(")");
    out
}

fn render_snapshots(input: &PreviewInput<'_>) -> (r: String)
    ensures
        r@ == snapshots_line(input@),
{
    let mut out = line("  snapshots  ", decimal_text(input.snapshots as u64).as_str());
    if let Some(latest) = input.latest_snapshot {
        out.append("   latest: ");
        out.append(latest);
    }
    out
}

fn render_waiver(override_: &Override) -> (r: String)
    ensures
        r@ == waiver_line(override_@),
{
    match override_ {
        Override::NoOverride => "  waiver     none".to_owned(),
        Override::Waiver { reason, ticket, .. } => match ticket {
            Some(ticket) => {
                let mut out = line("  waiver     ", ticket.as_str());
                out.append(" — ");
                out.append(reason.as_str());
                out
            },
            None => line("  waiver     ", reason.as_str()),
        },
        Override::LabMode => "  waiver     lab-mode".to_owned(),
    }
}

/// Render a destroy preview for change-set approval.
///
/// Every line is rendered every time, including `waiver     none`: an omitted
/// line reads as "not applicable"; a present line reading `none` is evidence
/// the server looked.
///
/// Backup age is reported and never gates the verdict. Enforcing a backup
/// precondition would imply the backup restores.
pub fn render_preview(input: &PreviewInput<'_>) -> (r: String)
    ensures
        r@ == preview_text(input@),
{
    let mut lines: Vec<String> = Vec::new();
    lines.push(render_header(input.state));
    lines.push(render_tags(input));
    lines.push(line("  node       ", input.state.node.as_str()));
    lines.push(render_disks(input));
    lines.push(render_snapshots(input));
    lines.push(
        match input.last_backup {
            Some(backup) => line("  backups    last: ", backup),
            None => "  backups    none".to_owned(),
        },
    );
    lines.push(render_waiver(input.override_));
    if input.protected && !input.override_.applies() {
        lines.push("  verdict    REFUSED — protected, no waiver".to_owned());
    }
    proof {
        assert(texts(lines@) =~= preview_lines(input@));
    }
    join_texts(&lines, "\n")
}

/// The backup and waiver lines are there whatever the input, and the verdict
/// is there exactly when a protected guest has no override. Backups do not
/// enter into it.
pub proof fn law_preview_always_states_backups_and_waiver(input: PreviewView)
    ensures
        preview_lines(input).contains(backups_line(input)),
        preview_lines(input).contains(waiver_line(input.override_)),
        preview_lines(input).len() == if refused(input) {
            8int
        } else {
            7
        },
        refused(input) ==> preview_lines(input).last() == verdict_line(),
{
    assert(preview_lines(input)[5] == backups_line(input));
    assert(preview_lines(input)[6] == waiver_line(input.override_));
}

/// A size is told in the largest unit it reaches, rounded down: gibibytes,
/// mebibytes, or bytes.
pub proof fn law_a_size_is_told_in_its_largest_unit(bytes: u64, count: nat)
    ensures
        1 <= count && count * 1073741824 <= bytes < (count + 1) * 1073741824 ==> size_text(bytes)
            == decimal(count) + "G"@,
        1 <= count < 1024 && count * 1048576 <= bytes < (count + 1) * 1048576 ==> size_text(bytes)
            == decimal(count) + "M"@,
        bytes < 1048576 ==> size_text(bytes) == decimal(bytes as nat) + "B"@,
{
    if 1 <= count && count * 1073741824 <= bytes < (count + 1) * 1073741824 {
        assert((bytes as nat) / 1073741824 == count);
    }
    if 1 <= count < 1024 && count * 1048576 <= bytes < (count + 1) * 1048576 {
        assert(bytes < 1073741824);
        assert((bytes as nat) / 1048576 == count);
    }
}

/// A preview shows the guest it is of: cluster, vmid, name, type and status in
/// the heading, then every tag, the node, and every disk with its size, and
/// whether the disks go too.
pub proof fn law_a_preview_shows_its_guest(input: PreviewView)
    ensures
        ({
            let text = preview_text(input);
            let s = input.state;
            &&& has_text(
                text,
                "DESTROY  "@ + s.cluster + " / "@ + decimal(s.vmid as nat) + " "@ + s.name + "  ("@
                    + s.kind + ", "@ + s.status + ")"@,
            )
            &&& has_text(text, "  node       "@ + s.node)
            &&& forall|i: int| 0 <= i < s.tags.len() ==> has_text(text, #[trigger] s.tags[i])
            &&& forall|i: int|
                0 <= i < s.disks.len() ==> has_text(
                    text,
                    (#[trigger] s.disks[i]).0 + " "@ + size_text(s.disks[i].1),
                )
            &&& has_text(
                text,
                "    (purge: "@ + (if input.purge_disks {
                    "yes"@
                } else {
                    "no"@
                }) + ")"@,
            )
        }),
{
    let text = preview_text(input);
    let s = input.state;
    let lines = preview_lines(input);
    lemma_join_has_parts(lines, "\n"@, 0);
    lemma_join_has_parts(lines, "\n"@, 1);
    lemma_join_has_parts(lines, "\n"@, 2);
    lemma_join_has_parts(lines, "\n"@, 3);
    assert forall|i: int| 0 <= i < s.tags.len() implies has_text(text, #[trigger] s.tags[i]) by {
        let tags = join(s.tags, ", "@);
        lemma_join_has_parts(s.tags, ", "@, i);
        lemma_has_end("  tags       "@, tags);
        lemma_has_middle("  tags       "@, tags, "          ← PROTECTED"@);
        lemma_has_inner(lines[1], tags, s.tags[i]);
        lemma_has_inner(text, lines[1], s.tags[i]);
    }
    let shown = if s.disks.len() == 0 {
        "(none)"@
    } else {
        join(disk_texts(s.disks), ", "@)
    };
    let word = if input.purge_disks {
        "yes"@
    } else {
        "no"@
    };
    let head = "  disks      "@ + shown;
    let purge = "    (purge: "@ + word + ")"@;
    lemma_together(head, "    (purge: "@, word);
    lemma_together(head, "    (purge: "@ + word, ")"@);
    assert(lines[3] == head + purge);
    lemma_has_end(head, purge);
    lemma_has_inner(text, lines[3], purge);
    assert forall|i: int| 0 <= i < s.disks.len() implies has_text(
        text,
        (#[trigger] s.disks[i]).0 + " "@ + size_text(s.disks[i].1),
    ) by {
        let disk = s.disks[i].0 + " "@ + size_text(s.disks[i].1);
        assert(disk_texts(s.disks)[i] == disk);
        lemma_join_has_parts(disk_texts(s.disks), ", "@, i);
        lemma_has_middle("  disks      "@, shown, purge);
        lemma_has_inner(lines[3], shown, disk);
        lemma_has_inner(text, lines[3], disk);
    }
}

/// A preview shows what stands around the guest: how many snapshots there are
/// and which is the latest, when it was last backed up, and under what
/// authority it goes, the waiver's reason and ticket among it.
pub proof fn law_a_preview_shows_snapshots_backups_and_authority(input: PreviewView)
    ensures
        ({
            let text = preview_text(input);
            &&& has_text(text, "  snapshots  "@ + decimal(input.snapshots))
            &&& input.latest_snapshot is Some ==> has_text(
                text,
                "   latest: "@ + input.latest_snapshot->0,
            )
            &&& input.last_backup is Some ==> has_text(
                text,
                "  backups    last: "@ + input.last_backup->0,
            )
            &&& input.last_backup is None ==> has_text(text, "  backups    none"@)
            &&& input.override_ is NoOverride ==> has_text(text, "  waiver     none"@)
            &&& input.override_ is LabMode ==> has_text(text, "  waiver     lab-mode"@)
            &&& input.override_ matches OverrideView::Waiver { reason, ticket, .. } ==> {
                &&& has_text(text, reason)
                &&& ticket is Some ==> has_text(text, "  waiver     "@ + ticket->0)
            }
        }),
{
    let text = preview_text(input);
    let lines = preview_lines(input);
    let none = Seq::<char>::empty();
    lemma_join_has_parts(lines, "\n"@, 4);
    lemma_join_has_parts(lines, "\n"@, 5);
    lemma_join_has_parts(lines, "\n"@, 6);
    let count = "  snapshots  "@ + decimal(input.snapshots);
    if let Some(latest) = input.latest_snapshot {
        lemma_together(count, "   latest: "@, latest);
        lemma_has_end(count, "   latest: "@ + latest);
        lemma_has_inner(text, lines[4], "   latest: "@ + latest);
        lemma_has_middle(none, count, "   latest: "@ + latest);
        assert(none + count =~= count);
        lemma_has_inner(text, lines[4], count);
    }
    if let OverrideView::Waiver { reason, ticket, .. } = input.override_ {
        match ticket {
            Some(ticket) => {
                let named = "  waiver     "@ + ticket;
                lemma_has_end(named + " — "@, reason);
                lemma_has_inner(text, lines[6], reason);
                lemma_together(named, " — "@, reason);
                lemma_has_middle(none, named, " — "@ + reason);
                assert(none + named =~= named);
                lemma_has_inner(text, lines[6], named);
            },
            None => {
                lemma_has_end("  waiver     "@, reason);
                lemma_has_inner(text, lines[6], reason);
            },
        }
    }
}

/// A preview carries a refusal exactly when the guest is protected and nothing
/// overrides that.
pub proof fn law_a_preview_refuses_the_protected(input: PreviewView)
    ensures
        preview_lines(input).len() == 8 <==> input.protected && input.override_ is NoOverride,
        input.protected && input.override_ is NoOverride ==> has_text(
            preview_text(input),
            "  verdict    REFUSED — protected, no waiver"@,
        ),
{
    if input.protected && input.override_ is NoOverride {
        lemma_join_has_parts(preview_lines(input), "\n"@, 7);
    }
}

/// A line says no more than there is: without tags, disks, a latest snapshot or
/// a ticket it says just that, and only a protected guest's tags are marked.
pub proof fn law_a_line_says_no_more_than_there_is(input: PreviewView)
    ensures
        ({
            let lines = preview_lines(input);
            &&& input.state.tags.len() == 0 ==> lines[1] == "  tags       (none)"@
            &&& input.state.tags.len() > 0 && !input.protected ==> lines[1] == "  tags       "@
                + join(input.state.tags, ", "@)
            &&& input.state.tags.len() > 0 && input.protected ==> lines[1] == "  tags       "@
                + join(input.state.tags, ", "@) + "          ← PROTECTED"@
            &&& input.state.disks.len() == 0 ==> "  disks      (none)"@.is_prefix_of(lines[3])
            &&& input.latest_snapshot is None ==> lines[4] == "  snapshots  "@ + decimal(
                input.snapshots,
            )
            &&& input.override_ matches OverrideView::Waiver { reason, ticket, .. } ==> (ticket
                is None ==> lines[6] == "  waiver     "@ + reason)
        }),
{
    reveal_strlit("  disks      (none)");
    reveal_strlit("  disks      ");
    reveal_strlit("(none)");
    if input.state.disks.len() == 0 {
        let line = preview_lines(input)[3];
        assert("  disks      "@ + "(none)"@ =~= "  disks      (none)"@);
        assert(line.take(19) =~= "  disks      (none)"@);
    }
}

} // verus!
