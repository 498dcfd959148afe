//! Forge identification.
//!
//! [`ForgeKind`] names the forge a repository's CI runs on (GitHub, GitLab,
//! Gitea, or Azure DevOps). It comes from project config when set, otherwise
//! from the host of a remote URL. Host classification respects DNS label
//! boundaries, so look-alike hosts are not recognized.

use vstd::prelude::*;
use crate::git::RefType;
use crate::git::url::{parse_remote_url, GitRemoteUrl};
use crate::text::{
    all_digits, all_digits_exec, ascii_lower_chars, ascii_lower_seq, contains_char, contains_field,
    ends_with, eq_chars, from_chars, rsplit_once_chars, rsplit_once_seq, split_chars, split_once_chars,
    split_acc, split_once_seq, split_seq, starts_with, starts_with_chars, strip_prefix, strip_prefix_chars,
    strip_suffix, strip_suffix_chars, to_chars, trim, trim_chars, trim_end_matches,
    trim_end_matches_chars, vviews, slice_copy, lemma_trim_idempotent,
};

verus! {

/// A known forge.
#[derive(Debug, Clone, Copy, PartialEq, Eq, Structural)]
pub enum ForgeKind {
    GitHub,
    GitLab,
    /// Experimental: Gitea CI status via the `tea` CLI.
    Gitea,
    AzureDevOps,
}

/// The canonical spelling of a forge in configuration and output.
pub open spec fn forge_name(k: ForgeKind) -> Seq<char> {
    match k {
        ForgeKind::GitHub => "github"@,
        ForgeKind::GitLab => "gitlab"@,
        ForgeKind::Gitea => "gitea"@,
        ForgeKind::AzureDevOps => "azure-devops"@,
    }
}

/// The forge a configured spelling names: the canonical lowercase names,
/// and `azuredevops` besides `azure-devops`. Case matters.
pub open spec fn parse_forge_name(s: Seq<char>) -> Option<ForgeKind> {
    if s == "github"@ {
        Some(ForgeKind::GitHub)
    } else if s == "gitlab"@ {
        Some(ForgeKind::GitLab)
    } else if s == "gitea"@ {
        Some(ForgeKind::Gitea)
    } else if s == "azure-devops"@ || s == "azuredevops"@ {
        Some(ForgeKind::AzureDevOps)
    } else {
        None
    }
}

/// Change-request vocabulary of a forge: merge requests on GitLab, pull
/// requests elsewhere.
pub open spec fn forge_ref_type(k: ForgeKind) -> RefType {
    match k {
        ForgeKind::GitLab => RefType::Mr,
        _ => RefType::Pr,
    }
}

/// A host without a numeric `:port` suffix.
pub open spec fn strip_port(h: Seq<char>) -> Seq<char> {
    match rsplit_once_seq(h, ':') {
        Some((name, port)) => if port.len() > 0 && all_digits(port) {
            name
        } else {
            h
        },
        None => h,
    }
}

/// A hostname as classification sees it: trimmed, without a numeric port or
/// trailing dots, in ASCII lowercase.
pub open spec fn normalized_hostname(host: Seq<char>) -> Seq<char> {
    ascii_lower_seq(trim_end_matches(strip_port(trim(host)), '.'))
}

/// Whether one of the dot-separated labels of `host` is `label`.
pub open spec fn host_has_label(host: Seq<char>, label: Seq<char>) -> bool {
    split_seq(host, '.').contains(label)
}

/// Whether `host` is `domain` or a subdomain of it.
pub open spec fn normalized_host_is_within(host: Seq<char>, domain: Seq<char>) -> bool {
    ||| host == domain
    ||| (match strip_suffix(host, domain) {
        Some(p) => p.len() > 0 && p.last() == '.',
        None => false,
    })
}

/// Whether the normalized form of `host` is `domain` or a subdomain of it.
pub open spec fn host_within_spec(host: Seq<char>, domain: Seq<char>) -> bool {
    normalized_host_is_within(normalized_hostname(host), domain)
}

/// The forge a hostname belongs to. Azure DevOps' fixed service domains come
/// first; otherwise a `github`, `gitlab` or `gitea` label decides.
pub open spec fn forge_from_host(host: Seq<char>) -> Option<ForgeKind> {
    let h = normalized_hostname(host);
    if normalized_host_is_within(h, "dev.azure.com"@) || normalized_host_is_within(h, "visualstudio.com"@) {
        Some(ForgeKind::AzureDevOps)
    } else if host_has_label(h, "github"@) {
        Some(ForgeKind::GitHub)
    } else if host_has_label(h, "gitlab"@) {
        Some(ForgeKind::GitLab)
    } else if host_has_label(h, "gitea"@) {
        Some(ForgeKind::Gitea)
    } else {
        None
    }
}

/// The forge of a remote URL's host.
pub open spec fn forge_from_url(url: Seq<char>) -> Option<ForgeKind> {
    match parse_remote_url(url) {
        Some(p) => forge_from_host(p.host),
        None => None,
    }
}

impl ForgeKind {
    /// The canonical spelling (`github`, `gitlab`, `gitea`, `azure-devops`).
    pub fn as_str(self) -> (r: &'static str)
        ensures
            r@ == forge_name(self),
    {
        match self {
            ForgeKind::GitHub => "github",
            ForgeKind::GitLab => "gitlab",
            ForgeKind::Gitea => "gitea",
            ForgeKind::AzureDevOps => "azure-devops",
        }
    }

    /// Parse a configured spelling.
    pub fn parse_name(s: &str) -> (r: Option<ForgeKind>)
        ensures
            r == parse_forge_name(s@),
    {
        let v = to_chars(s);
        let github = to_chars("github");
        let gitlab = to_chars("gitlab");
        let gitea = to_chars("gitea");
        let azure = to_chars("azure-devops");
        let azure2 = to_chars("azuredevops");
        if eq_chars(v.as_slice(), github.as_slice()) {
            Some(ForgeKind::GitHub)
        } else if eq_chars(v.as_slice(), gitlab.as_slice()) {
            Some(ForgeKind::GitLab)
        } else if eq_chars(v.as_slice(), gitea.as_slice()) {
            Some(ForgeKind::Gitea)
        } else if eq_chars(v.as_slice(), azure.as_slice()) || eq_chars(v.as_slice(), azure2.as_slice()) {
            Some(ForgeKind::AzureDevOps)
        } else {
            None
        }
    }

    /// Classify a forge from a remote hostname.
    pub fn from_host(host: &str) -> (r: Option<ForgeKind>)
        ensures
            r == forge_from_host(host@),
    {
        let h = normalized_hostname_exec(host);
        let azure = to_chars("dev.azure.com");
        let vs = to_chars("visualstudio.com");
        let github = to_chars("github");
        let gitlab = to_chars("gitlab");
        let gitea = to_chars("gitea");
        if normalized_host_is_within_exec(h.as_slice(), azure.as_slice())
            || normalized_host_is_within_exec(h.as_slice(), vs.as_slice()) {
            Some(ForgeKind::AzureDevOps)
        } else if host_has_label_exec(h.as_slice(), github.as_slice()) {
            Some(ForgeKind::GitHub)
        } else if host_has_label_exec(h.as_slice(), gitlab.as_slice()) {
            Some(ForgeKind::GitLab)
        } else if host_has_label_exec(h.as_slice(), gitea.as_slice()) {
            Some(ForgeKind::Gitea)
        } else {
            None
        }
    }

    /// PR/MR vocabulary for change requests on this forge.
    pub fn ref_type(self) -> (r: RefType)
        ensures
            r == forge_ref_type(self),
    {
        match self {
            ForgeKind::GitLab => RefType::Mr,
            _ => RefType::Pr,
        }
    }
}

impl core::str::FromStr for ForgeKind {
    type Err = ();

    fn from_str(s: &str) -> (r: Result<ForgeKind, ()>)
        ensures
            match parse_forge_name(s@) {
                Some(k) => r == Ok::<ForgeKind, ()>(k),
                None => r is Err,
            },
    {
        match ForgeKind::parse_name(s) {
            Some(k) => Ok(k),
            None => Err(()),
        }
    }
}

/// Lowercase a hostname and remove transport-only syntax before classifying it.
pub fn normalized_hostname_exec(host: &str) -> (r: Vec<char>)
    ensures
        r@ == normalized_hostname(host@),
{
    let chars = to_chars(host);
    let t = trim_chars(chars.as_slice());
    let h = match rsplit_once_chars(t.as_slice(), ':') {
        Some((name, port)) => {
            if port.len() > 0 && all_digits_exec(port.as_slice()) {
                name
            } else {
                t
            }
        },
        None => t,
    };
    let d = trim_end_matches_chars(h.as_slice(), '.');
    ascii_lower_chars(d.as_slice())
}

fn host_has_label_exec(host: &[char], label: &[char]) -> (r: bool)
    ensures
        r == host_has_label(host@, label@),
{
    let labels = split_chars(host, '.');
    contains_field(&labels, label)
}

fn normalized_host_is_within_exec(host: &[char], domain: &[char]) -> (r: bool)
    ensures
        r == normalized_host_is_within(host@, domain@),
{
    if eq_chars(host, domain) {
        return true;
    }
    match strip_suffix_chars(host, domain) {
        Some(p) => p.len() > 0 && p[p.len() - 1] == '.',
        None => false,
    }
}

/// Whether `host`, normalized, is `domain` or one of its subdomains.
pub fn host_is_within(host: &str, domain: &str) -> (r: bool)
    ensures
        r == host_within_spec(host@, domain@),
{
    let h = normalized_hostname_exec(host);
    let d = to_chars(domain);
    normalized_host_is_within_exec(h.as_slice(), d.as_slice())
}

/// Identify the forge from a remote URL's host.
pub fn platform_from_url(url: &str) -> (r: Option<ForgeKind>)
    ensures
        r == forge_from_url(url@),
{
    match GitRemoteUrl::parse(url) {
        Some(p) => ForgeKind::from_host(p.host()),
        None => None,
    }
}


/// A branded SSH host alias (`github-personal`) that names a forge only by
/// prefix. It explains a configuration choice to the user; it never selects
/// a forge provider.
#[derive(Debug, Clone, PartialEq, Eq)]
pub struct LegacyForgeAlias {
    host: String,
    platform: ForgeKind,
}

impl View for LegacyForgeAlias {
    type V = (Seq<char>, ForgeKind);

    closed spec fn view(&self) -> (Seq<char>, ForgeKind) {
        (self.host@, self.platform)
    }
}

/// Whether a remote URL uses SSH: an `ssh://` URL, or an scp-like address
/// whose part before the first `:` has a user and no `/`.
pub open spec fn is_ssh_url(u: Seq<char>) -> bool {
    ||| starts_with(u, "ssh://"@)
    ||| (match split_once_seq(u, ':') {
        Some((authority, _)) => !authority.contains('/') && authority.contains('@'),
        None => false,
    })
}

/// The forge whose `<name>-` prefix starts `host`, followed by something.
pub open spec fn branded_prefix(host: Seq<char>) -> Option<ForgeKind> {
    if (match strip_prefix(host, "github-"@) { Some(s) => s.len() > 0, None => false }) {
        Some(ForgeKind::GitHub)
    } else if (match strip_prefix(host, "gitlab-"@) { Some(s) => s.len() > 0, None => false }) {
        Some(ForgeKind::GitLab)
    } else if (match strip_prefix(host, "gitea-"@) { Some(s) => s.len() > 0, None => false }) {
        Some(ForgeKind::Gitea)
    } else {
        None
    }
}

/// The legacy alias a remote URL uses, if any: an SSH URL whose normalized
/// host is a single label, names no forge by itself, and starts with a
/// forge's name and a hyphen.
pub open spec fn legacy_alias_spec(url: Seq<char>) -> Option<(Seq<char>, ForgeKind)> {
    let u = trim(url);
    if !is_ssh_url(u) {
        None
    } else {
        match parse_remote_url(u) {
            Some(p) => {
                let host = normalized_hostname(p.host);
                if host.contains('.') || forge_from_host(host) is Some {
                    None
                } else {
                    match branded_prefix(host) {
                        Some(k) => Some((host, k)),
                        None => None,
                    }
                }
            },
            None => None,
        }
    }
}

fn has_branded_prefix(host: &[char], prefix: &str) -> (r: bool)
    ensures
        r == (match strip_prefix(host@, prefix@) {
            Some(s) => s.len() > 0,
            None => false,
        }),
{
    let p = to_chars(prefix);
    match strip_prefix_chars(host, p.as_slice()) {
        Some(s) => s.len() > 0,
        None => false,
    }
}

fn is_ssh_url_exec(u: &[char]) -> (r: bool)
    ensures
        r == is_ssh_url(u@),
{
    let ssh = to_chars("ssh://");
    if starts_with_chars(u, ssh.as_slice()) {
        return true;
    }
    match split_once_chars(u, ':') {
        Some((authority, _)) => !contains_char(authority.as_slice(), '/') && contains_char(
            authority.as_slice(),
            '@',
        ),
        None => false,
    }
}

impl LegacyForgeAlias {
    /// The alias host.
    pub fn host(&self) -> (r: &str)
        ensures
            r@ == self@.0,
    {
        self.host.as_str()
    }

    /// The forge the alias's prefix names.
    pub fn platform(&self) -> (r: ForgeKind)
        ensures
            r == self@.1,
    {
        self.platform
    }

    /// Recognize the common multi-account SSH alias form (`github-personal`).
    pub fn from_url(url: &str) -> (r: Option<LegacyForgeAlias>)
        ensures
            r matches Some(a) ==> legacy_alias_spec(url@) == Some(a@),
            r is None ==> legacy_alias_spec(url@) is None,
    {
        let chars = to_chars(url);
        let u = trim_chars(chars.as_slice());
        if !is_ssh_url_exec(u.as_slice()) {
            return None;
        }
        let us = from_chars(u.as_slice());
        let parsed = match GitRemoteUrl::parse(us.as_str()) {
            Some(p) => p,
            None => return None,
        };
        proof {
            lemma_trim_idempotent(url@);
        }
        let h = normalized_hostname_exec(parsed.host());
        let hs = from_chars(h.as_slice());
        if contains_char(h.as_slice(), '.') || ForgeKind::from_host(hs.as_str()).is_some() {
            return None;
        }
        let platform = if has_branded_prefix(h.as_slice(), "github-") {
            ForgeKind::GitHub
        } else if has_branded_prefix(h.as_slice(), "gitlab-") {
            ForgeKind::GitLab
        } else if has_branded_prefix(h.as_slice(), "gitea-") {
            ForgeKind::Gitea
        } else {
            return None;
        };
        Some(LegacyForgeAlias { host: hs, platform })
    }
}

/// The forge set in project config (`forge.platform`), if it is a known
/// spelling.
pub fn configured_ci_platform(raw: Option<&str>) -> (r: Option<ForgeKind>)
    ensures
        r == (match raw {
            Some(s) => parse_forge_name(s@),
            None => None,
        }),
{
    match raw {
        Some(s) => ForgeKind::parse_name(s),
        None => None,
    }
}

/// The CI platform of a repository: the configured one first; then the forge
/// of the hinted remote's URL; then that of the primary remote's URL.
pub fn ci_platform(configured: Option<ForgeKind>, hint_url: Option<&str>, primary_url: Option<&str>) -> (r: Option<ForgeKind>)
    ensures
        r == (if configured is Some {
            configured
        } else if (hint_url matches Some(h) && forge_from_url(h@) is Some) {
            forge_from_url(hint_url->0@)
        } else {
            match primary_url {
                Some(p) => forge_from_url(p@),
                None => None,
            }
        }),
{
    if configured.is_some() {
        return configured;
    }
    match hint_url {
        Some(h) => {
            let p = platform_from_url(h);
            if p.is_some() {
                return p;
            }
        },
        None => {},
    }
    match primary_url {
        Some(p) => platform_from_url(p),
        None => None,
    }
}

/// The legacy alias diagnostic for the primary remote's URL; a configured
/// platform settles the question and suppresses it.
pub fn legacy_forge_alias(configured: Option<ForgeKind>, primary_url: Option<&str>) -> (r: Option<LegacyForgeAlias>)
    ensures
        configured is Some ==> r is None,
        configured is None ==> (match primary_url {
            Some(u) => (r matches Some(a) ==> legacy_alias_spec(u@) == Some(a@))
                && (r is None ==> legacy_alias_spec(u@) is None),
            None => r is None,
        }),
{
    if configured.is_some() {
        return None;
    }
    match primary_url {
        Some(u) => LegacyForgeAlias::from_url(u),
        None => None,
    }
}


/// Every forge's canonical spelling parses back to that forge.
pub proof fn lemma_forge_name_roundtrip(k: ForgeKind)
    ensures
        parse_forge_name(forge_name(k)) == Some(k),
{
    reveal_strlit("github");
    reveal_strlit("gitlab");
    reveal_strlit("gitea");
    reveal_strlit("azure-devops");
    reveal_strlit("azuredevops");
    match k {
        ForgeKind::GitHub => {},
        ForgeKind::GitLab => {
            assert("gitlab"@[3] != "github"@[3]);
        },
        ForgeKind::Gitea => {
            assert("gitea"@.len() != "github"@.len());
            assert("gitea"@.len() != "gitlab"@.len());
        },
        ForgeKind::AzureDevOps => {
            assert("azure-devops"@[0] != "github"@[0]);
            assert("azure-devops"@[0] != "gitlab"@[0]);
            assert("azure-devops"@[0] != "gitea"@[0]);
        },
    }
}

/// A host inside Azure DevOps' fixed service domains is Azure DevOps, even
/// when one of its labels names another forge.
pub proof fn lemma_azure_domains_take_precedence(host: Seq<char>)
    requires
        normalized_host_is_within(normalized_hostname(host), "dev.azure.com"@)
            || normalized_host_is_within(normalized_hostname(host), "visualstudio.com"@),
    ensures
        forge_from_host(host) == Some(ForgeKind::AzureDevOps),
{
}

/// A legacy alias is a single-label host that by itself names no forge: it
/// can explain a choice but never select a provider.
pub proof fn lemma_legacy_alias_never_selects(url: Seq<char>)
    ensures
        legacy_alias_spec(url) matches Some((h, _)) ==> !h.contains('.') && forge_from_host(h) is None,
{
}


/// Reading a run without the delimiter only extends the open field.
proof fn lemma_split_acc_run<A>(cur: Seq<A>, x: Seq<A>, rest: Seq<A>, d: A)
    requires
        !x.contains(d),
    ensures
        split_acc(cur, x + rest, d) == split_acc(cur + x, rest, d),
    decreases x.len(),
{
    if x.len() == 0 {
        assert(x + rest =~= rest);
        assert(cur + x =~= cur);
    } else {
        assert((x + rest)[0] == x[0]);
        assert((x + rest).drop_first() =~= x.drop_first() + rest);
        assert(!x.drop_first().contains(d)) by {
            if x.drop_first().contains(d) {
                let j = choose|j: int| 0 <= j < x.drop_first().len() && x.drop_first()[j] == d;
                assert(x[j + 1] == d);
            }
        }
        assert(x[0] != d) by {
            if x[0] == d {
                assert(x.contains(d));
            }
        }
        lemma_split_acc_run(cur.push(x[0]), x.drop_first(), rest, d);
        assert(cur.push(x[0]) + x.drop_first() =~= cur + x);
    }
}

/// The fields after a delimiter are fields of the whole.
proof fn lemma_split_acc_after_delim<A>(cur: Seq<A>, p: Seq<A>, z: Seq<A>, d: A, field: Seq<A>)
    requires
        split_acc(Seq::<A>::empty(), z, d).contains(field),
    ensures
        split_acc(cur, p + seq![d] + z, d).contains(field),
    decreases p.len(),
{
    let tailf = split_acc(Seq::<A>::empty(), z, d);
    let j = choose|j: int| 0 <= j < tailf.len() && tailf[j] == field;
    if p.len() == 0 {
        let s = p + seq![d] + z;
        assert(s[0] == d);
        assert(s.drop_first() =~= z);
        let whole = seq![cur] + tailf;
        assert(whole[j + 1] == field);
    } else {
        let s = p + seq![d] + z;
        assert(s[0] == p[0]);
        assert(s.drop_first() =~= p.drop_first() + seq![d] + z);
        if p[0] == d {
            lemma_split_acc_after_delim(Seq::<A>::empty(), p.drop_first(), z, d, field);
            let inner = split_acc(Seq::<A>::empty(), p.drop_first() + seq![d] + z, d);
            let i = choose|i: int| 0 <= i < inner.len() && inner[i] == field;
            let whole = seq![cur] + inner;
            assert(whole[i + 1] == field);
        } else {
            lemma_split_acc_after_delim(cur.push(p[0]), p.drop_first(), z, d, field);
        }
    }
}

/// A dot-delimited run of `host` holding no dot is one of its labels.
pub proof fn lemma_delimited_label(pre: Seq<char>, label: Seq<char>, post: Seq<char>)
    requires
        !label.contains('.'),
        pre.len() == 0 || pre.last() == '.',
        post.len() == 0 || post[0] == '.',
    ensures
        host_has_label(pre + label + post, label),
{
    let e = Seq::<char>::empty();
    lemma_split_acc_run(e, label, post, '.');
    assert(e + label =~= label);
    let core = split_acc(e, label + post, '.');
    if post.len() == 0 {
        assert(core[0] == label);
    } else {
        assert(post.drop_first() =~= post.drop_first());
        assert(core == split_acc(label, post, '.'));
        assert(core[0] == label);
    }
    assert(core.contains(label));
    if pre.len() == 0 {
        assert(pre + label + post =~= label + post);
    } else {
        lemma_split_acc_after_delim(e, pre.drop_last(), label + post, '.', label);
        assert(pre + label + post =~= pre.drop_last() + seq!['.'] + (label + post));
    }
}

proof fn lemma_no_dot(s: Seq<char>)
    requires
        forall|i: int| 0 <= i < s.len() ==> s[i] != '.',
    ensures
        !s.contains('.'),
{
}

/// A host with a dot-separated label `github` (after normalization) is a
/// GitHub host unless it lies in Azure DevOps' domains: `ssh.github.com` and
/// `code.github.example.com` are GitHub, whatever the other labels are.
pub proof fn lemma_github_label_gives_github(host: Seq<char>, pre: Seq<char>, post: Seq<char>)
    requires
        normalized_hostname(host) == pre + "github"@ + post,
        pre.len() == 0 || pre.last() == '.',
        post.len() == 0 || post[0] == '.',
        !host_within_spec(host, "dev.azure.com"@),
        !host_within_spec(host, "visualstudio.com"@),
    ensures
        forge_from_host(host) == Some(ForgeKind::GitHub),
{
    reveal_strlit("github");
    lemma_no_dot("github"@);
    lemma_delimited_label(pre, "github"@, post);
}

/// A host with a `gitlab` label and no `github` label is a GitLab host
/// unless it lies in Azure DevOps' domains (`code.gitlab.example.com`).
pub proof fn lemma_gitlab_label_gives_gitlab(host: Seq<char>, pre: Seq<char>, post: Seq<char>)
    requires
        normalized_hostname(host) == pre + "gitlab"@ + post,
        pre.len() == 0 || pre.last() == '.',
        post.len() == 0 || post[0] == '.',
        !host_has_label(normalized_hostname(host), "github"@),
        !host_within_spec(host, "dev.azure.com"@),
        !host_within_spec(host, "visualstudio.com"@),
    ensures
        forge_from_host(host) == Some(ForgeKind::GitLab),
{
    reveal_strlit("gitlab");
    lemma_no_dot("gitlab"@);
    lemma_delimited_label(pre, "gitlab"@, post);
}

/// A host with a `gitea` label and neither a `github` nor a `gitlab` label
/// is a Gitea host unless it lies in Azure DevOps' domains
/// (`git.gitea.example.org`).
pub proof fn lemma_gitea_label_gives_gitea(host: Seq<char>, pre: Seq<char>, post: Seq<char>)
    requires
        normalized_hostname(host) == pre + "gitea"@ + post,
        pre.len() == 0 || pre.last() == '.',
        post.len() == 0 || post[0] == '.',
        !host_has_label(normalized_hostname(host), "github"@),
        !host_has_label(normalized_hostname(host), "gitlab"@),
        !host_within_spec(host, "dev.azure.com"@),
        !host_within_spec(host, "visualstudio.com"@),
    ensures
        forge_from_host(host) == Some(ForgeKind::Gitea),
{
    reveal_strlit("gitea");
    lemma_no_dot("gitea"@);
    lemma_delimited_label(pre, "gitea"@, post);
}

} // verus!
