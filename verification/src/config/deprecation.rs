//! Deprecated configuration: what was found, how it is reported, and how
//! misplaced or unknown keys are classified.

use vstd::prelude::*;
use crate::styling::{bold_spec, warning_message, warning_message_spec, BOLD, BOLD_END};
use crate::text::{
    append_chars, append_str, contains_char, contains_str, contains_sub, eq_chars, from_chars, split_once_chars,
    split_once_seq, to_chars,
};
use crate::config::unknown_tree::{UnknownWarning, WarningView};
use crate::git::remote_ref::info::copy_string;

verus! {

/// Which config file a deprecation pass is examining.
#[derive(Debug, Clone, Copy, PartialEq, Eq, Structural)]
pub enum ConfigFileKind {
    /// The user's `config.toml`.
    User,
    /// The system-wide config layer.
    System,
    /// The repository's `.config/wt.toml`.
    Project,
}

/// The display label of a config file kind.
pub open spec fn kind_label(k: ConfigFileKind) -> Seq<char> {
    match k {
        ConfigFileKind::User => "User config"@,
        ConfigFileKind::System => "System config"@,
        ConfigFileKind::Project => "Project config"@,
    }
}

impl ConfigFileKind {
    /// The display label (`User config`, `System config`, `Project config`).
    pub fn label(self) -> (r: &'static str)
        ensures
            r@ == kind_label(self),
    {
        match self {
            ConfigFileKind::User => "User config",
            ConfigFileKind::System => "System config",
            ConfigFileKind::Project => "Project config",
        }
    }
}

/// A deprecated top-level section and what replaces it.
#[derive(Debug, Clone)]
pub struct DeprecatedSection {
    /// The deprecated key (e.g. `commit-generation`).
    pub key: &'static str,
    /// The top-level key of its replacement (e.g. `commit`).
    pub canonical_top_key: &'static str,
    /// The replacement as shown to the user (e.g. `[commit.generation]`).
    pub canonical_display: &'static str,
}

/// The deprecated top-level sections, as (key, canonical top key, display).
pub open spec fn deprecated_sections() -> Seq<(Seq<char>, Seq<char>, Seq<char>)> {
    seq![
        ("commit-generation"@, "commit"@, "[commit.generation]"@),
        ("select"@, "switch"@, "[switch.picker]"@),
        ("ci"@, "forge"@, "[forge]"@),
    ]
}

/// The deprecated section whose key is `key`, if any.
pub open spec fn find_deprecated(key: Seq<char>) -> Option<(Seq<char>, Seq<char>, Seq<char>)> {
    if key == "commit-generation"@ {
        Some(deprecated_sections()[0])
    } else if key == "select"@ {
        Some(deprecated_sections()[1])
    } else if key == "ci"@ {
        Some(deprecated_sections()[2])
    } else {
        None
    }
}

/// The deprecated section whose key is `key`, if any.
pub fn deprecated_section(key: &str) -> (r: Option<DeprecatedSection>)
    ensures
        match find_deprecated(key@) {
            Some(d) => r matches Some(s) && (s.key@, s.canonical_top_key@, s.canonical_display@) == d,
            None => r is None,
        },
{
    let k = to_chars(key);
    let cg = to_chars("commit-generation");
    let sel = to_chars("select");
    let ci = to_chars("ci");
    if eq_chars(k.as_slice(), cg.as_slice()) {
        Some(DeprecatedSection {
            key: "commit-generation",
            canonical_top_key: "commit",
            canonical_display: "[commit.generation]",
        })
    } else if eq_chars(k.as_slice(), sel.as_slice()) {
        Some(DeprecatedSection { key: "select", canonical_top_key: "switch", canonical_display: "[switch.picker]" })
    } else if eq_chars(k.as_slice(), ci.as_slice()) {
        Some(DeprecatedSection { key: "ci", canonical_top_key: "forge", canonical_display: "[forge]" })
    } else {
        None
    }
}

/// Which scopes of one config file carried a deprecated section: the top
/// level, and/or named `[projects."<id>"]` entries.
#[derive(Debug, Clone)]
pub struct ScopedSections {
    /// The deprecated section appeared at the top level.
    pub has_top_level: bool,
    /// Project keys whose entry carried the section.
    pub project_keys: Vec<String>,
}

impl ScopedSections {
    /// No scope carried the section.
    pub fn is_empty(&self) -> (r: bool)
        ensures
            r == (!self.has_top_level && self.project_keys@.len() == 0),
    {
        !self.has_top_level && self.project_keys.len() == 0
    }

    /// Record that the section was migrated in `scope` (`None`: top level).
    pub fn record(&mut self, scope: Option<&str>)
        ensures
            match scope {
                None => final(self).has_top_level && final(self).project_keys@ == old(self).project_keys@,
                Some(k) => final(self).has_top_level == old(self).has_top_level
                    && final(self).project_keys@.len() == old(self).project_keys@.len() + 1
                    && final(self).project_keys@.last()@ == k@
                    && final(self).project_keys@.drop_last() == old(self).project_keys@,
            },
    {
        match scope {
            None => {
                self.has_top_level = true;
            },
            Some(k) => {
                let ghost before = self.project_keys@;
                self.project_keys.push(crate::text::string_of(k));
                assert(self.project_keys@.drop_last() =~= before);
            },
        }
    }
}

/// One deprecated config pattern, carrying what its warning needs.
#[derive(Debug, Clone)]
pub enum DeprecationKind {
    /// Template variable `old` replaced by `new`.
    TemplateVar { old: String, new: String },
    /// `[commit-generation]` sections, per scope.
    CommitGeneration(ScopedSections),
    /// `approved-commands` under `[projects."..."]`.
    ApprovedCommands,
    /// `[select]` sections, per scope.
    Select(ScopedSections),
    /// A key its replacement section has no field for.
    UnsupportedKey { section: String, key: String },
    /// `[ci]` section (moved to `[forge]`).
    CiSection,
    /// `no-ff` in `[merge]`.
    NoFf,
    /// `no-cd` in `[switch]`.
    NoCd,
    /// `task-timeout-ms` under `[list]`.
    ListTaskTimeout,
}

/// The deprecations found in one config file.
#[derive(Debug, Clone)]
pub struct DeprecationInfo {
    /// Path to the config file.
    pub config_path: String,
    /// All detected deprecations, in warning order.
    pub deprecations: Vec<DeprecationKind>,
    /// Which config file this is.
    pub kind: ConfigFileKind,
    /// Main worktree path when viewing from a linked worktree.
    pub main_worktree_path: Option<String>,
}

impl DeprecationInfo {
    /// Whether any deprecation was found.
    pub fn has_deprecations(&self) -> (r: bool)
        ensures
            r == (self.deprecations@.len() > 0),
    {
        self.deprecations.len() > 0
    }

    /// The config file's display label.
    pub fn label(&self) -> (r: &'static str)
        ensures
            r@ == kind_label(self.kind),
    {
        self.kind.label()
    }
}

/// The result of checking config content for deprecations.
#[derive(Debug, Clone)]
pub struct CheckAndMigrateResult {
    /// Present only when user-visible deprecations were found.
    pub info: Option<DeprecationInfo>,
    /// The structurally migrated content used for loading.
    pub migrated_content: String,
}

/// Display form of a deprecated section in its scope.
pub open spec fn section_display_spec(scope: Option<Seq<char>>, section: Seq<char>) -> Seq<char> {
    match scope {
        None => seq!['['] + section + seq![']'],
        Some(p) => "[projects.\""@ + p + "\"."@ + section + seq![']'],
    }
}

/// Display form of a deprecated section within its scope: `[select]` at the
/// top level, `[projects."<id>".select]` under a project entry.
pub fn section_display(scope: Option<&str>, section: &str) -> (r: String)
    ensures
        r@ == section_display_spec(
            match scope {
                Some(p) => Some(p@),
                None => None,
            },
            section@,
        ),
{
    let mut v: Vec<char> = Vec::new();
    match scope {
        None => {
            v.push('[');
        },
        Some(p) => {
            append_str(&mut v, "[projects.\"");
            append_str(&mut v, p);
            append_str(&mut v, "\".");
        },
    }
    append_str(&mut v, section);
    v.push(']');
    from_chars(v.as_slice())
}

/// What one section migration did: whether it moved the table, and the
/// unsupported keys it dropped.
#[derive(Debug, Clone)]
pub struct SectionMigration {
    pub moved: bool,
    pub dropped: Vec<DeprecationKind>,
}

impl SectionMigration {
    /// The rule declined: nothing moved, nothing removed.
    pub fn none() -> (r: SectionMigration)
        ensures
            !r.moved && r.dropped@.len() == 0,
    {
        SectionMigration { moved: false, dropped: Vec::new() }
    }

    /// Every key was removed, so nothing was left to move.
    pub fn dropped_only(dropped: Vec<DeprecationKind>) -> (r: SectionMigration)
        ensures
            !r.moved && r.dropped@ == dropped@,
    {
        SectionMigration { moved: false, dropped }
    }
}


/// One warning line: the styled warning and a newline.
pub open spec fn wline(text: Seq<char>) -> Seq<char> {
    warning_message_spec(text) + seq!['\n']
}

/// `<label>: <bold>old</> is deprecated in favor of <bold>new</>`.
pub open spec fn deprecated_text(label: Seq<char>, old: Seq<char>, new: Seq<char>) -> Seq<char> {
    label + ": "@ + bold_spec(old) + " is deprecated in favor of "@ + bold_spec(new)
}

/// `[projects."<k>".<section>]`.
pub open spec fn project_section(k: Seq<char>, section: Seq<char>) -> Seq<char> {
    "[projects.\""@ + k + "\"."@ + section + seq![']']
}

/// The warning lines for the project scopes of a renamed section.
pub open spec fn project_lines(keys: Seq<Seq<char>>, label: Seq<char>, old: Seq<char>, new: Seq<char>) -> Seq<char>
    decreases keys.len(),
{
    if keys.len() == 0 {
        Seq::empty()
    } else {
        project_lines(keys.drop_last(), label, old, new) + wline(
            deprecated_text(label, project_section(keys.last(), old), project_section(keys.last(), new)),
        )
    }
}

/// The views of strings.
pub open spec fn sviews(v: Seq<String>) -> Seq<Seq<char>> {
    v.map_values(|s: String| s@)
}

/// The warning lines for a renamed section's scopes.
pub open spec fn scoped_lines(s: ScopedSections, label: Seq<char>, old: Seq<char>, new: Seq<char>) -> Seq<char> {
    (if s.has_top_level {
        wline(deprecated_text(label, seq!['['] + old + seq![']'], seq!['['] + new + seq![']']))
    } else {
        Seq::empty()
    }) + project_lines(sviews(s.project_keys@), label, old, new)
}

/// The warning lines for one deprecation.
pub open spec fn kind_lines(k: DeprecationKind, label: Seq<char>) -> Seq<char> {
    match k {
        DeprecationKind::TemplateVar { old, new } => wline(
            label + ": template variable "@ + bold_spec(old@) + " is deprecated in favor of "@ + bold_spec(new@),
        ),
        DeprecationKind::CommitGeneration(s) => scoped_lines(s, label, "commit-generation"@, "commit.generation"@),
        DeprecationKind::ApprovedCommands => wline(
            label + ": "@ + bold_spec("approved-commands"@) + " under "@ + bold_spec("[projects]"@)
                + " is deprecated in favor of "@ + bold_spec("approvals.toml"@),
        ),
        DeprecationKind::Select(s) => scoped_lines(s, label, "select"@, "switch.picker"@),
        DeprecationKind::UnsupportedKey { section, key } => wline(
            label + ": "@ + bold_spec(section@ + seq![' '] + key@) + " is no longer supported and will be removed"@,
        ),
        DeprecationKind::CiSection => wline(deprecated_text(label, "[ci]"@, "[forge]"@)),
        DeprecationKind::NoFf => wline(deprecated_text(label, "merge.no-ff"@, "merge.ff"@) + " (inverted)"@),
        DeprecationKind::NoCd => wline(deprecated_text(label, "switch.no-cd"@, "switch.cd"@) + " (inverted)"@),
        DeprecationKind::ListTaskTimeout => wline(
            label + ": "@ + bold_spec("list.task-timeout-ms"@) + " is no longer used \u{2014} "@ + bold_spec(
                "list.timeout-ms"@,
            ) + " bounds the collect phase"@,
        ),
    }
}

/// The warning lines for all deprecations, in order.
pub open spec fn warning_lines(kinds: Seq<DeprecationKind>, label: Seq<char>) -> Seq<char>
    decreases kinds.len(),
{
    if kinds.len() == 0 {
        Seq::empty()
    } else {
        warning_lines(kinds.drop_last(), label) + kind_lines(kinds.last(), label)
    }
}

fn push_bold(v: &mut Vec<char>, text: &[char])
    ensures
        final(v)@ == old(v)@ + bold_spec(text@),
{
    append_str(v, BOLD);
    append_chars(v, text);
    append_str(v, BOLD_END);
}

fn push_line(out: &mut Vec<char>, text: &[char])
    ensures
        final(out)@ == old(out)@ + wline(text@),
{
    let w = warning_message(text);
    append_chars(out, w.as_slice());
    out.push('\n');
}

fn deprecated_line(out: &mut Vec<char>, label: &str, from: &[char], to: &[char], suffix: &str)
    ensures
        final(out)@ == old(out)@ + wline(deprecated_text(label@, from@, to@) + suffix@),
{
    let mut t = to_chars(label);
    append_str(&mut t, ": ");
    push_bold(&mut t, from);
    append_str(&mut t, " is deprecated in favor of ");
    push_bold(&mut t, to);
    append_str(&mut t, suffix);
    push_line(out, t.as_slice());
}

fn project_section_exec(k: &str, section: &str) -> (r: Vec<char>)
    ensures
        r@ == project_section(k@, section@),
{
    let mut v = to_chars("[projects.\"");
    append_str(&mut v, k);
    append_str(&mut v, "\".");
    append_str(&mut v, section);
    v.push(']');
    v
}

fn scoped_exec(out: &mut Vec<char>, s: &ScopedSections, label: &str, from: &str, to: &str)
    ensures
        final(out)@ == old(out)@ + scoped_lines(*s, label@, from@, to@),
{
    let ghost start = out@;
    if s.has_top_level {
        let mut o = vec!['['];
        append_str(&mut o, from);
        o.push(']');
        let mut n = vec!['['];
        append_str(&mut n, to);
        n.push(']');
        assert(o@ =~= seq!['['] + from@ + seq![']']);
        assert(n@ =~= seq!['['] + to@ + seq![']']);
        deprecated_line(out, label, o.as_slice(), n.as_slice(), "");
        assert(deprecated_text(label@, o@, n@) + ""@ =~= deprecated_text(label@, o@, n@)) by {
            reveal_strlit("");
        }
    }
    let ghost mid = out@;
    let ghost keys = sviews(s.project_keys@);
    let mut i: usize = 0;
    while i < s.project_keys.len()
        invariant
            i <= s.project_keys@.len(),
            keys == sviews(s.project_keys@),
            out@ == mid + project_lines(keys.take(i as int), label@, from@, to@),
        decreases s.project_keys.len() - i,
    {
        assert(keys.take(i + 1).drop_last() =~= keys.take(i as int));
        assert(keys.take(i + 1).last() == s.project_keys@[i as int]@);
        let k = s.project_keys[i].as_str();
        let o = project_section_exec(k, from);
        let n = project_section_exec(k, to);
        deprecated_line(out, label, o.as_slice(), n.as_slice(), "");
        assert(deprecated_text(label@, o@, n@) + ""@ =~= deprecated_text(label@, o@, n@)) by {
            reveal_strlit("");
        }
        assert(out@ =~= mid + project_lines(keys.take(i + 1), label@, from@, to@));
        i = i + 1;
    }
    assert(keys.take(keys.len() as int) =~= keys);
    assert(out@ =~= start + scoped_lines(*s, label@, from@, to@));
}

fn kind_exec(out: &mut Vec<char>, k: &DeprecationKind, label: &str)
    ensures
        final(out)@ == old(out)@ + kind_lines(*k, label@),
{
    proof {
        reveal_strlit("");
    }
    match k {
        DeprecationKind::TemplateVar { old, new } => {
            let mut t = to_chars(label);
            append_str(&mut t, ": template variable ");
            let o = to_chars(old.as_str());
            push_bold(&mut t, o.as_slice());
            append_str(&mut t, " is deprecated in favor of ");
            let n = to_chars(new.as_str());
            push_bold(&mut t, n.as_slice());
            push_line(out, t.as_slice());
        },
        DeprecationKind::CommitGeneration(s) => {
            scoped_exec(out, s, label, "commit-generation", "commit.generation");
        },
        DeprecationKind::ApprovedCommands => {
            let mut t = to_chars(label);
            append_str(&mut t, ": ");
            push_bold(&mut t, to_chars("approved-commands").as_slice());
            append_str(&mut t, " under ");
            push_bold(&mut t, to_chars("[projects]").as_slice());
            append_str(&mut t, " is deprecated in favor of ");
            push_bold(&mut t, to_chars("approvals.toml").as_slice());
            push_line(out, t.as_slice());
        },
        DeprecationKind::Select(s) => {
            scoped_exec(out, s, label, "select", "switch.picker");
        },
        DeprecationKind::UnsupportedKey { section, key } => {
            let mut t = to_chars(label);
            append_str(&mut t, ": ");
            let mut sk = to_chars(section.as_str());
            sk.push(' ');
            append_str(&mut sk, key.as_str());
            push_bold(&mut t, sk.as_slice());
            append_str(&mut t, " is no longer supported and will be removed");
            push_line(out, t.as_slice());
        },
        DeprecationKind::CiSection => {
            deprecated_line(out, label, to_chars("[ci]").as_slice(), to_chars("[forge]").as_slice(), "");
            assert(deprecated_text(label@, "[ci]"@, "[forge]"@) + ""@ =~= deprecated_text(label@, "[ci]"@, "[forge]"@));
        },
        DeprecationKind::NoFf => {
            deprecated_line(
                out,
                label,
                to_chars("merge.no-ff").as_slice(),
                to_chars("merge.ff").as_slice(),
                " (inverted)",
            );
        },
        DeprecationKind::NoCd => {
            deprecated_line(
                out,
                label,
                to_chars("switch.no-cd").as_slice(),
                to_chars("switch.cd").as_slice(),
                " (inverted)",
            );
        },
        DeprecationKind::ListTaskTimeout => {
            let mut t = to_chars(label);
            append_str(&mut t, ": ");
            push_bold(&mut t, to_chars("list.task-timeout-ms").as_slice());
            append_str(&mut t, " is no longer used \u{2014} ");
            push_bold(&mut t, to_chars("list.timeout-ms").as_slice());
            append_str(&mut t, " bounds the collect phase");
            push_line(out, t.as_slice());
        },
    }
}

/// One warning line per deprecation (several for a section renamed in
/// several scopes), in order.
pub fn format_warning_lines(kinds: &Vec<DeprecationKind>, label: &str) -> (r: String)
    ensures
        r@ == warning_lines(kinds@, label@),
{
    let mut out: Vec<char> = Vec::new();
    let mut i: usize = 0;
    while i < kinds.len()
        invariant
            i <= kinds@.len(),
            out@ == warning_lines(kinds@.take(i as int), label@),
        decreases kinds.len() - i,
    {
        assert(kinds@.take(i + 1).drop_last() =~= kinds@.take(i as int));
        kind_exec(&mut out, &kinds[i], label);
        i = i + 1;
    }
    assert(kinds@.take(kinds@.len() as int) =~= kinds@);
    from_chars(out.as_slice())
}

/// The warning lines for a file's deprecations, labelled by its kind.
pub fn format_deprecation_warnings(info: &DeprecationInfo) -> (r: String)
    ensures
        r@ == warning_lines(info.deprecations@, kind_label(info.kind)),
{
    format_warning_lines(&info.deprecations, info.label())
}


/// `Moved <bold>a</> to <bold>b</>`.
pub open spec fn moved_text(a: Seq<char>, b: Seq<char>) -> Seq<char> {
    "Moved "@ + bold_spec(a) + " to "@ + bold_spec(b)
}

/// `Replaced <bold>a</> with <bold>b</> (inverted)`.
pub open spec fn replaced_text(a: Seq<char>, b: Seq<char>) -> Seq<char> {
    "Replaced "@ + bold_spec(a) + " with "@ + bold_spec(b) + " (inverted)"@
}

/// The applied-migration lines for the project scopes of a renamed section.
pub open spec fn project_applied(keys: Seq<Seq<char>>, old: Seq<char>, new: Seq<char>) -> Seq<char>
    decreases keys.len(),
{
    if keys.len() == 0 {
        Seq::empty()
    } else {
        project_applied(keys.drop_last(), old, new) + wline(
            moved_text(project_section(keys.last(), old), project_section(keys.last(), new)),
        )
    }
}

/// The applied-migration lines for a renamed section's scopes.
pub open spec fn scoped_applied(s: ScopedSections, old: Seq<char>, new: Seq<char>) -> Seq<char> {
    (if s.has_top_level {
        wline(moved_text(seq!['['] + old + seq![']'], seq!['['] + new + seq![']']))
    } else {
        Seq::empty()
    }) + project_applied(sviews(s.project_keys@), old, new)
}

/// The applied-migration lines for one deprecation.
pub open spec fn kind_applied(k: DeprecationKind) -> Seq<char> {
    match k {
        DeprecationKind::TemplateVar { old, new } => wline(
            "Renamed template variable "@ + bold_spec(old@) + " to "@ + bold_spec(new@),
        ),
        DeprecationKind::CommitGeneration(s) => scoped_applied(s, "commit-generation"@, "commit.generation"@),
        DeprecationKind::ApprovedCommands => wline(
            "Moved "@ + bold_spec("approved-commands"@) + " under "@ + bold_spec("[projects]"@) + " to "@
                + bold_spec("approvals.toml"@),
        ),
        DeprecationKind::Select(s) => scoped_applied(s, "select"@, "switch.picker"@),
        DeprecationKind::UnsupportedKey { section, key } => wline(
            "Removed "@ + bold_spec(section@ + seq![' '] + key@) + ", which its replacement has no field for"@,
        ),
        DeprecationKind::CiSection => wline(moved_text("[ci]"@, "[forge]"@)),
        DeprecationKind::NoFf => wline(replaced_text("merge.no-ff"@, "merge.ff"@)),
        DeprecationKind::NoCd => wline(replaced_text("switch.no-cd"@, "switch.cd"@)),
        DeprecationKind::ListTaskTimeout => wline(
            "Removed "@ + bold_spec("list.task-timeout-ms"@) + ", which nothing reads"@,
        ),
    }
}

/// The applied-migration lines for all deprecations, in order.
pub open spec fn applied_lines(kinds: Seq<DeprecationKind>) -> Seq<char>
    decreases kinds.len(),
{
    if kinds.len() == 0 {
        Seq::empty()
    } else {
        applied_lines(kinds.drop_last()) + kind_applied(kinds.last())
    }
}

fn moved_line(out: &mut Vec<char>, a: &[char], b: &[char])
    ensures
        final(out)@ == old(out)@ + wline(moved_text(a@, b@)),
{
    let mut t = to_chars("Moved ");
    push_bold(&mut t, a);
    append_str(&mut t, " to ");
    push_bold(&mut t, b);
    push_line(out, t.as_slice());
}

fn replaced_line(out: &mut Vec<char>, a: &str, b: &str)
    ensures
        final(out)@ == old(out)@ + wline(replaced_text(a@, b@)),
{
    let mut t = to_chars("Replaced ");
    push_bold(&mut t, to_chars(a).as_slice());
    append_str(&mut t, " with ");
    push_bold(&mut t, to_chars(b).as_slice());
    append_str(&mut t, " (inverted)");
    push_line(out, t.as_slice());
}

fn scoped_applied_exec(out: &mut Vec<char>, s: &ScopedSections, from: &str, to: &str)
    ensures
        final(out)@ == old(out)@ + scoped_applied(*s, from@, to@),
{
    let ghost start = out@;
    if s.has_top_level {
        let mut o = vec!['['];
        append_str(&mut o, from);
        o.push(']');
        let mut n = vec!['['];
        append_str(&mut n, to);
        n.push(']');
        assert(o@ =~= seq!['['] + from@ + seq![']']);
        assert(n@ =~= seq!['['] + to@ + seq![']']);
        moved_line(out, o.as_slice(), n.as_slice());
    }
    let ghost mid = out@;
    let ghost keys = sviews(s.project_keys@);
    let mut i: usize = 0;
    while i < s.project_keys.len()
        invariant
            i <= s.project_keys@.len(),
            keys == sviews(s.project_keys@),
            out@ == mid + project_applied(keys.take(i as int), from@, to@),
        decreases s.project_keys.len() - i,
    {
        assert(keys.take(i + 1).drop_last() =~= keys.take(i as int));
        assert(keys.take(i + 1).last() == s.project_keys@[i as int]@);
        let k = s.project_keys[i].as_str();
        let o = project_section_exec(k, from);
        let n = project_section_exec(k, to);
        moved_line(out, o.as_slice(), n.as_slice());
        assert(out@ =~= mid + project_applied(keys.take(i + 1), from@, to@));
        i = i + 1;
    }
    assert(keys.take(keys.len() as int) =~= keys);
    assert(out@ =~= start + scoped_applied(*s, from@, to@));
}

fn kind_applied_exec(out: &mut Vec<char>, k: &DeprecationKind)
    ensures
        final(out)@ == old(out)@ + kind_applied(*k),
{
    match k {
        DeprecationKind::TemplateVar { old, new } => {
            let mut t = to_chars("Renamed template variable ");
            push_bold(&mut t, to_chars(old.as_str()).as_slice());
            append_str(&mut t, " to ");
            push_bold(&mut t, to_chars(new.as_str()).as_slice());
            push_line(out, t.as_slice());
        },
        DeprecationKind::CommitGeneration(s) => {
            scoped_applied_exec(out, s, "commit-generation", "commit.generation");
        },
        DeprecationKind::ApprovedCommands => {
            let mut t = to_chars("Moved ");
            push_bold(&mut t, to_chars("approved-commands").as_slice());
            append_str(&mut t, " under ");
            push_bold(&mut t, to_chars("[projects]").as_slice());
            append_str(&mut t, " to ");
            push_bold(&mut t, to_chars("approvals.toml").as_slice());
            push_line(out, t.as_slice());
        },
        DeprecationKind::Select(s) => {
            scoped_applied_exec(out, s, "select", "switch.picker");
        },
        DeprecationKind::UnsupportedKey { section, key } => {
            let mut t = to_chars("Removed ");
            let mut sk = to_chars(section.as_str());
            sk.push(' ');
            append_str(&mut sk, key.as_str());
            push_bold(&mut t, sk.as_slice());
            append_str(&mut t, ", which its replacement has no field for");
            push_line(out, t.as_slice());
        },
        DeprecationKind::CiSection => {
            moved_line(out, to_chars("[ci]").as_slice(), to_chars("[forge]").as_slice());
        },
        DeprecationKind::NoFf => {
            replaced_line(out, "merge.no-ff", "merge.ff");
        },
        DeprecationKind::NoCd => {
            replaced_line(out, "switch.no-cd", "switch.cd");
        },
        DeprecationKind::ListTaskTimeout => {
            let mut t = to_chars("Removed ");
            push_bold(&mut t, to_chars("list.task-timeout-ms").as_slice());
            append_str(&mut t, ", which nothing reads");
            push_line(out, t.as_slice());
        },
    }
}

/// One warning line per migration already applied, in order.
pub fn format_applied_lines(kinds: &Vec<DeprecationKind>) -> (r: String)
    ensures
        r@ == applied_lines(kinds@),
{
    let mut out: Vec<char> = Vec::new();
    let mut i: usize = 0;
    while i < kinds.len()
        invariant
            i <= kinds@.len(),
            out@ == applied_lines(kinds@.take(i as int)),
        decreases kinds.len() - i,
    {
        assert(kinds@.take(i + 1).drop_last() =~= kinds@.take(i as int));
        kind_applied_exec(&mut out, &kinds[i]);
        i = i + 1;
    }
    assert(kinds@.take(kinds@.len() as int) =~= kinds@);
    from_chars(out.as_slice())
}


/// What unknown-key classification needs to know of a config type: how it
/// is described to the user (`user config`) and its valid top-level keys.
#[derive(Debug, Clone)]
pub struct ConfigSchema {
    pub description: String,
    pub valid_keys: Vec<String>,
}

/// Whether `key` is a valid top-level key of `schema`.
pub open spec fn schema_has(schema: ConfigSchema, key: Seq<char>) -> bool {
    sviews(schema.valid_keys@).contains(key)
}

pub(crate) fn schema_has_exec(schema: &ConfigSchema, key: &[char]) -> (r: bool)
    ensures
        r == schema_has(*schema, key@),
{
    let mut i: usize = 0;
    while i < schema.valid_keys.len()
        invariant
            i <= schema.valid_keys@.len(),
            forall|k: int| 0 <= k < i ==> sviews(schema.valid_keys@)[k] != key@,
        decreases schema.valid_keys.len() - i,
    {
        let c = to_chars(schema.valid_keys[i].as_str());
        if eq_chars(c.as_slice(), key) {
            assert(sviews(schema.valid_keys@)[i as int] == key@);
            return true;
        }
        i = i + 1;
    }
    false
}

/// The config where `key` belongs when it is valid in `other` (the other
/// config type) rather than where it was found.
pub fn key_belongs_in(key: &str, other: &ConfigSchema) -> (r: Option<String>)
    ensures
        match r {
            Some(d) => schema_has(*other, key@) && d@ == other.description@,
            None => !schema_has(*other, key@),
        },
{
    let k = to_chars(key);
    if schema_has_exec(other, k.as_slice()) {
        Some(copy_string(&other.description))
    } else {
        None
    }
}

/// The `[commit.generation]` keys that only user config may hold.
pub open spec fn user_only_paths() -> Seq<Seq<char>> {
    seq!["commit.generation.command"@, "commit.generation.template"@, "commit.generation.squash-template"@]
}

/// The config where a misplaced nested key belongs: the other config, for
/// the user-only `[commit.generation]` keys; `None` for other paths.
pub fn nested_key_belongs_in(path: &str, other: &ConfigSchema) -> (r: Option<String>)
    ensures
        match r {
            Some(d) => user_only_paths().contains(path@) && d@ == other.description@,
            None => !user_only_paths().contains(path@),
        },
{
    let p = to_chars(path);
    let a = to_chars("commit.generation.command");
    let b = to_chars("commit.generation.template");
    let c = to_chars("commit.generation.squash-template");
    let found = eq_chars(p.as_slice(), a.as_slice()) || eq_chars(p.as_slice(), b.as_slice()) || eq_chars(
        p.as_slice(),
        c.as_slice(),
    );
    proof {
        let u = user_only_paths();
        assert(u[0] == "commit.generation.command"@);
        assert(u[1] == "commit.generation.template"@);
        assert(u[2] == "commit.generation.squash-template"@);
        if u.contains(path@) {
            let i = choose|i: int| 0 <= i < u.len() && u[i] == path@;
            assert(i == 0 || i == 1 || i == 2);
        }
    }
    if found {
        Some(copy_string(&other.description))
    } else {
        None
    }
}

/// Classification of an unknown config key for warning purposes.
#[derive(Debug, Clone)]
pub enum UnknownKeyKind {
    /// A deprecated key in its correct config type: the deprecation system
    /// reports it.
    DeprecatedHandled,
    /// A deprecated key in the wrong config type.
    DeprecatedWrongConfig { other_description: String, canonical_display: String },
    /// A key that belongs in the other config type.
    WrongConfig { other_description: String },
    /// A key valid in neither config type.
    Unknown,
}

/// Classify an unknown key found in a config of schema `this` (whose other
/// config type has schema `other`): a deprecated section is handled where
/// its replacement is valid and redirected otherwise; a key valid in the
/// other config is redirected; anything else is unknown.
pub fn classify_unknown_key(key: &str, this: &ConfigSchema, other: &ConfigSchema) -> (r: UnknownKeyKind)
    ensures
        match find_deprecated(key@) {
            Some(d) => if schema_has(*this, d.1) {
                r is DeprecatedHandled
            } else {
                r matches UnknownKeyKind::DeprecatedWrongConfig { other_description, canonical_display }
                    && other_description@ == other.description@ && canonical_display@ == d.2
            },
            None => if schema_has(*other, key@) {
                r matches UnknownKeyKind::WrongConfig { other_description } && other_description@
                    == other.description@
            } else {
                r is Unknown
            },
        },
{
    match deprecated_section(key) {
        Some(dep) => {
            let top = to_chars(dep.canonical_top_key);
            if schema_has_exec(this, top.as_slice()) {
                UnknownKeyKind::DeprecatedHandled
            } else {
                UnknownKeyKind::DeprecatedWrongConfig {
                    other_description: copy_string(&other.description),
                    canonical_display: crate::text::string_of(dep.canonical_display),
                }
            }
        },
        None => match key_belongs_in(key, other) {
            Some(d) => UnknownKeyKind::WrongConfig { other_description: d },
            None => UnknownKeyKind::Unknown,
        },
    }
}


/// The description of the user config type.
pub open spec fn user_description() -> Seq<char> {
    "user config"@
}

/// The description of the project config type.
pub open spec fn project_description() -> Seq<char> {
    "project config"@
}

/// The note that tells how to scope a user setting to one repository.
pub open spec fn user_scope_note() -> Seq<char> {
    "to scope it to this repo, add it under [projects.\"<id>\"] in user config"@
}

/// The note that tells how to set a project table from user config.
pub open spec fn project_scope_note() -> Seq<char> {
    "to set it from user config, add it under [projects.\"<id>\"]"@
}

/// The first dot-separated segment of a key path.
pub open spec fn top_segment(key: Seq<char>) -> Seq<char> {
    match split_once_seq(key, '.') {
        Some((a, _)) => a,
        None => key,
    }
}

/// The note for a key redirected to the config described as
/// `other_description`, given the fields of a user config's
/// `[projects."<id>"]` table (`override_keys`): only when the key's top
/// segment is such a field; toward user config always, toward project
/// config only for a whole top-level key.
pub open spec fn scope_note(other_description: Seq<char>, key: Seq<char>, override_keys: Seq<Seq<char>>) -> Option<Seq<char>> {
    if !override_keys.contains(top_segment(key)) {
        None
    } else if other_description == user_description() {
        Some(user_scope_note())
    } else if other_description == project_description() && !key.contains('.') {
        Some(project_scope_note())
    } else {
        None
    }
}

/// The scope note for a misplaced `key` whose destination is described as
/// `other_description`; `override_keys` are the fields of a user config's
/// `[projects."<id>"]` table.
pub fn scope_to_repo_note(other_description: &str, key: &str, override_keys: &Vec<String>) -> (r: Option<&'static str>)
    ensures
        match scope_note(other_description@, key@, sviews(override_keys@)) {
            Some(n) => r matches Some(s) && s@ == n,
            None => r is None,
        },
{
    let k = to_chars(key);
    let top = match split_once_chars(k.as_slice(), '.') {
        Some((a, _)) => a,
        None => to_chars(key),
    };
    let mut found = false;
    let mut i: usize = 0;
    while i < override_keys.len()
        invariant
            i <= override_keys@.len(),
            found == sviews(override_keys@).take(i as int).contains(top@),
        decreases override_keys.len() - i,
    {
        let o = to_chars(override_keys[i].as_str());
        proof {
            let ks = sviews(override_keys@);
            assert(ks.take(i + 1) =~= ks.take(i as int).push(ks[i as int]));
            broadcast use vstd::seq_lib::group_seq_properties;
        }
        if eq_chars(o.as_slice(), top.as_slice()) {
            found = true;
        }
        i = i + 1;
    }
    proof {
        let ks = sviews(override_keys@);
        assert(ks.take(ks.len() as int) =~= ks);
    }
    if !found {
        return None;
    }
    let d = to_chars(other_description);
    let user = "to scope it to this repo, add it under [projects.\"<id>\"] in user config";
    let project = "to set it from user config, add it under [projects.\"<id>\"]";
    proof {
        reveal_strlit("user config");
        reveal_strlit("project config");
    }
    if eq_chars(d.as_slice(), to_chars("user config").as_slice()) {
        Some(user)
    } else if eq_chars(d.as_slice(), to_chars("project config").as_slice()) && !contains_char(k.as_slice(), '.') {
        Some(project)
    } else {
        None
    }
}

/// `message`, followed by `; ` and the scope note when there is one.
pub open spec fn with_note(message: Seq<char>, other_description: Seq<char>, key: Seq<char>, override_keys: Seq<Seq<char>>) -> Seq<char> {
    match scope_note(other_description, key, override_keys) {
        Some(n) => message + "; "@ + n,
        None => message,
    }
}

/// Append the scope note (see [`scope_to_repo_note`]) to `message`.
pub fn with_scope_note(message: String, other_description: &str, key: &str, override_keys: &Vec<String>) -> (r: String)
    ensures
        r@ == with_note(message@, other_description@, key@, sviews(override_keys@)),
{
    match scope_to_repo_note(other_description, key, override_keys) {
        Some(note) => {
            let mut v = to_chars(message.as_str());
            append_str(&mut v, "; ");
            append_str(&mut v, note);
            from_chars(v.as_slice())
        },
        None => message,
    }
}

/// The message for an unknown-key finding in the config labelled `label`.
pub open spec fn load_warning(label: Seq<char>, w: WarningView, override_keys: Seq<Seq<char>>) -> Seq<char> {
    match w {
        WarningView::TopLevelUnknown(key) => label + " has unknown field "@ + bold_spec(key) + " (will be ignored)"@,
        WarningView::TopLevelWrongConfig(key, d) => with_note(
            label + " has key "@ + bold_spec(key) + " which belongs in "@ + d + " (will be ignored)"@,
            d,
            key,
            override_keys,
        ),
        WarningView::TopLevelDeprecatedWrongConfig(key, d, canonical) => label + " has key "@ + bold_spec(key)
            + " which belongs in "@ + d + " as "@ + canonical,
        WarningView::NestedWrongConfig(path, d) => with_note(
            label + " has key "@ + bold_spec(path) + " which belongs in "@ + d + " (will be ignored)"@,
            d,
            path,
            override_keys,
        ),
        WarningView::NestedUnknown(path) => label + " has unknown field "@ + bold_spec(path) + " (will be ignored)"@,
    }
}

/// Word an unknown-key finding for the config labelled `label`.
pub fn format_load_warning(label: &str, warning: &UnknownWarning, override_keys: &Vec<String>) -> (r: String)
    ensures
        r@ == load_warning(label@, warning@, sviews(override_keys@)),
{
    let mut v = to_chars(label);
    match warning {
        UnknownWarning::TopLevelUnknown { key } => {
            append_str(&mut v, " has unknown field ");
            push_bold(&mut v, to_chars(key.as_str()).as_slice());
            append_str(&mut v, " (will be ignored)");
            from_chars(v.as_slice())
        },
        UnknownWarning::TopLevelWrongConfig { key, other_description } => {
            append_str(&mut v, " has key ");
            push_bold(&mut v, to_chars(key.as_str()).as_slice());
            append_str(&mut v, " which belongs in ");
            append_str(&mut v, other_description.as_str());
            append_str(&mut v, " (will be ignored)");
            with_scope_note(from_chars(v.as_slice()), other_description.as_str(), key.as_str(), override_keys)
        },
        UnknownWarning::TopLevelDeprecatedWrongConfig { key, other_description, canonical_display } => {
            append_str(&mut v, " has key ");
            push_bold(&mut v, to_chars(key.as_str()).as_slice());
            append_str(&mut v, " which belongs in ");
            append_str(&mut v, other_description.as_str());
            append_str(&mut v, " as ");
            append_str(&mut v, canonical_display.as_str());
            from_chars(v.as_slice())
        },
        UnknownWarning::NestedWrongConfig { path, other_description } => {
            append_str(&mut v, " has key ");
            push_bold(&mut v, to_chars(path.as_str()).as_slice());
            append_str(&mut v, " which belongs in ");
            append_str(&mut v, other_description.as_str());
            append_str(&mut v, " (will be ignored)");
            with_scope_note(from_chars(v.as_slice()), other_description.as_str(), path.as_str(), override_keys)
        },
        UnknownWarning::NestedUnknown { path } => {
            append_str(&mut v, " has unknown field ");
            push_bold(&mut v, to_chars(path.as_str()).as_slice());
            append_str(&mut v, " (will be ignored)");
            from_chars(v.as_slice())
        },
    }
}


/// The retired template variables with their replacements, in order.
pub open spec fn retired_vars() -> Seq<(Seq<char>, Seq<char>)> {
    seq![
        ("repo_root"@, "repo_path"@),
        ("worktree"@, "worktree_path"@),
        ("main_worktree"@, "repo"@),
        ("main_worktree_path"@, "primary_worktree_path"@),
        ("commits"@, "commit_details"@),
    ]
}

fn retired_vars_exec() -> (r: Vec<(&'static str, &'static str)>)
    ensures
        r@.len() == retired_vars().len(),
        forall|i: int| 0 <= i < r@.len() ==> (#[trigger] r@[i].0@, r@[i].1@) == retired_vars()[i],
{
    proof {
        reveal_strlit("repo_root");
        reveal_strlit("repo_path");
        reveal_strlit("worktree");
        reveal_strlit("worktree_path");
        reveal_strlit("main_worktree");
        reveal_strlit("repo");
        reveal_strlit("main_worktree_path");
        reveal_strlit("primary_worktree_path");
        reveal_strlit("commits");
        reveal_strlit("commit_details");
    }
    let r = vec![
        ("repo_root", "repo_path"),
        ("worktree", "worktree_path"),
        ("main_worktree", "repo"),
        ("main_worktree_path", "primary_worktree_path"),
        ("commits", "commit_details"),
    ];
    assert(r@[0].0@ == retired_vars()[0].0);
    r
}

/// Whether the text of `template` contains a retired variable's name at all.
pub open spec fn mentions_retired(template: Seq<char>) -> bool {
    exists|i: int| 0 <= i < retired_vars().len() && #[trigger] contains_sub(template, retired_vars()[i].0)
}

/// Whether `template` contains a retired variable's name anywhere in its
/// text (the check that decides whether parsing it is worth it).
pub fn mentions_retired_var(template: &str) -> (r: bool)
    ensures
        r == mentions_retired(template@),
{
    let t = to_chars(template);
    let vars = retired_vars_exec();
    let mut i: usize = 0;
    while i < vars.len()
        invariant
            i <= vars@.len(),
            t@ == template@,
            vars@.len() == retired_vars().len(),
            forall|k: int| 0 <= k < vars@.len() ==> (#[trigger] vars@[k].0@, vars@[k].1@) == retired_vars()[k],
            forall|k: int| 0 <= k < i ==> !contains_sub(template@, #[trigger] retired_vars()[k].0),
        decreases vars.len() - i,
    {
        if contains_str(t.as_slice(), vars[i].0) {
            assert(contains_sub(template@, retired_vars()[i as int].0));
            return true;
        }
        i = i + 1;
    }
    false
}

/// What MiniJinja's parse of a template shows: each variable read, as its
/// name and the character range `[start, end)` of the identifier, and each
/// name a `set`, `for` or `with` binds.
#[derive(Debug, Clone)]
pub struct TemplateVars {
    pub reads: Vec<(String, usize, usize)>,
    pub bound: Vec<String>,
}

/// Whether some read is of `name`.
pub open spec fn reads_name(reads: Seq<(Seq<char>, usize, usize)>, name: Seq<char>) -> bool {
    exists|i: int| 0 <= i < reads.len() && (#[trigger] reads[i]).0 == name
}

/// The views of reads: each name as characters, with its span.
pub open spec fn read_views(reads: Seq<(String, usize, usize)>) -> Seq<(Seq<char>, usize, usize)> {
    reads.map_values(|x: (String, usize, usize)| (x.0@, x.1, x.2))
}

/// The retired pairs to rename: those whose old name is read and neither of
/// whose names is bound, in order.
pub open spec fn kept_pairs(pairs: Seq<(Seq<char>, Seq<char>)>, reads: Seq<(Seq<char>, usize, usize)>, bound: Seq<Seq<char>>) -> Seq<(Seq<char>, Seq<char>)>
    decreases pairs.len(),
{
    if pairs.len() == 0 {
        Seq::empty()
    } else {
        let prev = kept_pairs(pairs.drop_last(), reads, bound);
        let (old, new) = pairs.last();
        if reads_name(reads, old) && !bound.contains(old) && !bound.contains(new) {
            prev.push((old, new))
        } else {
            prev
        }
    }
}

/// The new name for `name` among the kept pairs.
pub open spec fn replacement_for(kept: Seq<(Seq<char>, Seq<char>)>, name: Seq<char>) -> Option<Seq<char>>
    decreases kept.len(),
{
    if kept.len() == 0 {
        None
    } else if kept[0].0 == name {
        Some(kept[0].1)
    } else {
        replacement_for(kept.drop_first(), name)
    }
}

/// The first rename (end of span, new name) among `reads[j..]` whose span
/// starts at `pos`.
pub open spec fn edit_from(reads: Seq<(Seq<char>, usize, usize)>, kept: Seq<(Seq<char>, Seq<char>)>, pos: int, j: int) -> Option<(int, Seq<char>)>
    decreases reads.len() - j,
{
    if j < 0 || j >= reads.len() {
        None
    } else if reads[j].1 == pos && reads[j].2 > pos && replacement_for(kept, reads[j].0) is Some {
        Some((reads[j].2 as int, replacement_for(kept, reads[j].0)->0))
    } else {
        edit_from(reads, kept, pos, j + 1)
    }
}

/// `t` from `pos` on, with each renamed read's span replaced by its new name.
pub open spec fn spliced(t: Seq<char>, reads: Seq<(Seq<char>, usize, usize)>, kept: Seq<(Seq<char>, Seq<char>)>, pos: int) -> Seq<char>
    decreases t.len() - pos,
{
    if pos < 0 || pos >= t.len() {
        Seq::empty()
    } else {
        match edit_from(reads, kept, pos, 0) {
            Some((end, new)) => if pos < end <= t.len() {
                new + spliced(t, reads, kept, end)
            } else {
                new
            },
            None => seq![t[pos]] + spliced(t, reads, kept, pos + 1),
        }
    }
}

proof fn lemma_edit_from_after(reads: Seq<(Seq<char>, usize, usize)>, kept: Seq<(Seq<char>, Seq<char>)>, pos: int, j: int)
    ensures
        edit_from(reads, kept, pos, j) matches Some((end, _)) ==> end > pos,
    decreases reads.len() - j,
{
    if 0 <= j < reads.len() {
        lemma_edit_from_after(reads, kept, pos, j + 1);
    }
}

fn replacement_exec(kept: &Vec<(&'static str, &'static str)>, name: &[char]) -> (r: Option<&'static str>)
    ensures
        match r {
            Some(n) => replacement_for(kept@.map_values(|p: (&str, &str)| (p.0@, p.1@)), name@) == Some(n@),
            None => replacement_for(kept@.map_values(|p: (&str, &str)| (p.0@, p.1@)), name@) is None,
        },
{
    let ghost ks = kept@.map_values(|p: (&str, &str)| (p.0@, p.1@));
    let mut j: usize = 0;
    assert(ks.skip(0) =~= ks);
    while j < kept.len()
        invariant
            j <= kept@.len(),
            ks == kept@.map_values(|p: (&str, &str)| (p.0@, p.1@)),
            replacement_for(ks, name@) == replacement_for(ks.skip(j as int), name@),
        decreases kept.len() - j,
    {
        assert(ks.skip(j as int).drop_first() =~= ks.skip(j + 1));
        assert(ks.skip(j as int)[0] == ks[j as int]);
        let o = to_chars(kept[j].0);
        if eq_chars(o.as_slice(), name) {
            return Some(kept[j].1);
        }
        j = j + 1;
    }
    None
}

/// The views of rename pairs.
pub open spec fn pair_views(v: Seq<(&'static str, &'static str)>) -> Seq<(Seq<char>, Seq<char>)> {
    v.map_values(|p: (&str, &str)| (p.0@, p.1@))
}

/// Rename the retired variables that `template` reads: `None` when its text
/// mentions none of them, when it did not parse (`vars` is `None`), or when
/// every read retired name is bound in the template (or its replacement
/// is); otherwise the template with each renamed read replaced, and the
/// pairs renamed, in order.
pub fn migrate_retired_vars(template: &str, vars: Option<&TemplateVars>) -> (r: Option<(String, Vec<(&'static str, &'static str)>)>)
    ensures
        match vars {
            Some(v) => if mentions_retired(template@) && kept_pairs(retired_vars(), read_views(v.reads@), sviews(v.bound@)).len() > 0 {
                r matches Some((out, pairs)) && pair_views(pairs@) == kept_pairs(retired_vars(), read_views(v.reads@), sviews(v.bound@))
                    && out@ == spliced(template@, read_views(v.reads@), kept_pairs(retired_vars(), read_views(v.reads@), sviews(v.bound@)), 0)
            } else {
                r is None
            },
            None => r is None,
        },
{
    if !mentions_retired_var(template) {
        return None;
    }
    let v = match vars {
        Some(v) => v,
        None => return None,
    };
    let all = retired_vars_exec();
    let mut kept: Vec<(&'static str, &'static str)> = Vec::new();
    let mut i: usize = 0;
    assert(retired_vars().take(0) =~= Seq::<(Seq<char>, Seq<char>)>::empty());
    while i < all.len()
        invariant
            i <= all@.len(),
            all@.len() == retired_vars().len(),
            forall|k: int| 0 <= k < all@.len() ==> (#[trigger] all@[k].0@, all@[k].1@) == retired_vars()[k],
            pair_views(kept@) == kept_pairs(retired_vars().take(i as int), read_views(v.reads@), sviews(v.bound@)),
        decreases all.len() - i,
    {
        let (old, new) = all[i];
        let oc = to_chars(old);
        let nc = to_chars(new);
        let mut read = false;
        let mut j: usize = 0;
        while j < v.reads.len()
            invariant
                j <= v.reads@.len(),
                read == exists|q: int| 0 <= q < j && (#[trigger] v.reads@[q]).0@ == oc@,
            decreases v.reads.len() - j,
        {
            let n = to_chars(v.reads[j].0.as_str());
            if eq_chars(n.as_slice(), oc.as_slice()) {
                read = true;
            }
            j = j + 1;
        }
        proof {
            let rv = read_views(v.reads@);
            if read {
                let q = choose|q: int| 0 <= q < j && (#[trigger] v.reads@[q]).0@ == oc@;
                assert(rv[q].0 == oc@);
            }
            if reads_name(rv, oc@) {
                let q = choose|q: int| 0 <= q < rv.len() && (#[trigger] rv[q]).0 == oc@;
                assert(v.reads@[q].0@ == oc@);
            }
        }
        let mut bound_old = false;
        let mut bound_new = false;
        let mut b: usize = 0;
        while b < v.bound.len()
            invariant
                b <= v.bound@.len(),
                bound_old == sviews(v.bound@).take(b as int).contains(oc@),
                bound_new == sviews(v.bound@).take(b as int).contains(nc@),
            decreases v.bound.len() - b,
        {
            proof {
                let bs = sviews(v.bound@);
                assert(bs.take(b + 1) =~= bs.take(b as int).push(bs[b as int]));
                broadcast use vstd::seq_lib::group_seq_properties;
            }
            let n = to_chars(v.bound[b].as_str());
            if eq_chars(n.as_slice(), oc.as_slice()) {
                bound_old = true;
            }
            if eq_chars(n.as_slice(), nc.as_slice()) {
                bound_new = true;
            }
            b = b + 1;
        }
        proof {
            let bs = sviews(v.bound@);
            assert(bs.take(bs.len() as int) =~= bs);
            assert(retired_vars().take(i + 1).drop_last() =~= retired_vars().take(i as int));
            assert(retired_vars().take(i + 1).last() == retired_vars()[i as int]);
        }
        if read && !bound_old && !bound_new {
            let ghost before = kept@;
            kept.push((old, new));
            assert(pair_views(kept@) =~= pair_views(before).push((old@, new@)));
        }
        i = i + 1;
    }
    assert(retired_vars().take(retired_vars().len() as int) =~= retired_vars());
    if kept.len() == 0 {
        return None;
    }
    let ghost ks = kept_pairs(retired_vars(), read_views(v.reads@), sviews(v.bound@));
    let t = to_chars(template);
    let mut out: Vec<char> = Vec::new();
    let mut pos: usize = 0;
    while pos < t.len()
        invariant
            pos <= t@.len(),
            t@ == template@,
            pair_views(kept@) == ks,
            spliced(t@, read_views(v.reads@), ks, 0) == out@ + spliced(t@, read_views(v.reads@), ks, pos as int),
        decreases t.len() - pos,
    {
        let mut found: Option<(usize, &'static str)> = None;
        let mut j: usize = 0;
        while j < v.reads.len()
            invariant
                j <= v.reads@.len(),
                pair_views(kept@) == ks,
                found is None ==> edit_from(read_views(v.reads@), ks, pos as int, 0) == edit_from(read_views(v.reads@), ks, pos as int, j as int),
                found matches Some((e, n)) ==> edit_from(read_views(v.reads@), ks, pos as int, 0) == Some((e as int, n@)),
            decreases v.reads.len() - j,
        {
            if found.is_none() && v.reads[j].1 == pos && v.reads[j].2 > pos {
                let name = to_chars(v.reads[j].0.as_str());
                match replacement_exec(&kept, name.as_slice()) {
                    Some(n) => {
                        found = Some((v.reads[j].2, n));
                    },
                    None => {},
                }
            }
            j = j + 1;
        }
        proof {
            lemma_edit_from_after(read_views(v.reads@), ks, pos as int, 0);
        }
        match found {
            Some((end, n)) => {
                append_str(&mut out, n);
                if end <= t.len() {
                    pos = end;
                } else {
                    assert(spliced(t@, read_views(v.reads@), ks, t.len() as int) =~= Seq::<char>::empty());
                    pos = t.len();
                }
            },
            None => {
                out.push(t[pos]);
                pos = pos + 1;
            },
        }
    }
    assert(spliced(t@, read_views(v.reads@), ks, pos as int) =~= Seq::<char>::empty());
    Some((from_chars(out.as_slice()), kept))
}


/// The arguments as one shell command line: each shell-escaped, joined
/// with spaces.
pub open spec fn shell_joined(args: Seq<&str>) -> Seq<char>
    decreases args.len(),
{
    if args.len() == 0 {
        Seq::empty()
    } else if args.len() == 1 {
        crate::config::expansion::shell_escaped(args[0]@)
    } else {
        shell_joined(args.drop_last()) + seq![' '] + crate::config::expansion::shell_escaped(args.last()@)
    }
}

/// Join arguments into one command line with shell quoting.
pub fn shell_join(args: &[&str]) -> (r: String)
    ensures
        r@ == shell_joined(args@),
{
    let mut v: Vec<char> = Vec::new();
    let mut i: usize = 0;
    while i < args.len()
        invariant
            i <= args@.len(),
            v@ == shell_joined(args@.take(i as int)),
        decreases args.len() - i,
    {
        assert(args@.take(i + 1).drop_last() =~= args@.take(i as int));
        if i > 0 {
            v.push(' ');
        }
        let e = crate::config::expansion::shell_escape_unix(args[i]);
        append_str(&mut v, e.as_str());
        i = i + 1;
    }
    assert(args@.take(args@.len() as int) =~= args@);
    from_chars(v.as_slice())
}

/// The command that `args` merge into: the command unchanged when there are
/// no arguments, the joined arguments when the command is empty, else both
/// separated by a space.
pub open spec fn merged_command_spec(command: Seq<char>, args: Seq<&str>) -> Seq<char> {
    if args.len() == 0 {
        command
    } else if command.len() == 0 {
        shell_joined(args)
    } else {
        command + seq![' '] + shell_joined(args)
    }
}

/// Merge a deprecated `args` list into its `command` string.
pub fn merged_command(command: &str, args: &[&str]) -> (r: String)
    ensures
        r@ == merged_command_spec(command@, args@),
{
    if args.len() == 0 {
        return crate::text::string_of(command);
    }
    let joined = shell_join(args);
    let c = to_chars(command);
    if c.len() == 0 {
        joined
    } else {
        let mut v = c;
        v.push(' ');
        append_str(&mut v, joined.as_str());
        from_chars(v.as_slice())
    }
}


/// The retired template variables, each with the name that replaced it:
/// `repo_root` → `repo_path`, `worktree` → `worktree_path`, `main_worktree`
/// → `repo`, `main_worktree_path` → `primary_worktree_path`, `commits` →
/// `commit_details`, in that order.
pub proof fn lemma_retired_table()
    ensures
        retired_vars().len() == 5,
        retired_vars()[0] == ("repo_root"@, "repo_path"@),
        retired_vars()[1] == ("worktree"@, "worktree_path"@),
        retired_vars()[2] == ("main_worktree"@, "repo"@),
        retired_vars()[3] == ("main_worktree_path"@, "primary_worktree_path"@),
        retired_vars()[4] == ("commits"@, "commit_details"@),
{
}

} // verus!
