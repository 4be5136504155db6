//! Resolving the author and commit behind a code location.
//!
//! The caller runs the fallible steps (local blame, a remote hosting
//! API); this module parses blame output and applies the strategy chain:
//! blame first, the remote result second, all-null last — the first
//! resolved answer wins.
use vstd::prelude::*;
use crate::strutil::{spec_lines, spec_starts_with, spec_tokens, split_lines, starts_with, tokenize};

verus! {

/// Author and commit context of a location; every part may be unknown.
pub struct AttributionInfo {
    pub name: Option<String>,
    pub email: Option<String>,
    pub commit_hash: Option<String>,
}

/// The mathematical content of an `AttributionInfo`.
pub ghost struct AttributionModel {
    pub name: Option<Seq<char>>,
    pub email: Option<Seq<char>>,
    pub commit_hash: Option<Seq<char>>,
}

impl View for AttributionInfo {
    type V = AttributionModel;

    open spec fn view(&self) -> AttributionModel {
        AttributionModel {
            name: self.name.deep_view(),
            email: self.email.deep_view(),
            commit_hash: self.commit_hash.deep_view(),
        }
    }
}

impl DeepView for AttributionInfo {
    type V = AttributionModel;

    open spec fn deep_view(&self) -> AttributionModel {
        self.view()
    }
}

/// Nothing resolved.
pub open spec fn null_attribution() -> AttributionModel {
    AttributionModel { name: None, email: None, commit_hash: None }
}

/// Whether any part was resolved.
pub open spec fn attribution_resolved(a: AttributionModel) -> bool {
    a.name is Some || a.email is Some || a.commit_hash is Some
}

impl AttributionInfo {
    /// Nothing resolved.
    pub fn none() -> (r: AttributionInfo)
        ensures
            r@ == null_attribution(),
    {
        AttributionInfo { name: None, email: None, commit_hash: None }
    }

    /// Whether any part was resolved.
    pub fn is_resolved(&self) -> (r: bool)
        ensures
            r == attribution_resolved(self@),
    {
        self.name.is_some() || self.email.is_some() || self.commit_hash.is_some()
    }

    /// Copies the record.
    pub fn duplicate(&self) -> (r: AttributionInfo)
        ensures
            r@ == self@,
    {
        AttributionInfo {
            name: match &self.name {
                Some(s) => Some(s.clone()),
                None => None,
            },
            email: match &self.email {
                Some(s) => Some(s.clone()),
                None => None,
            },
            commit_hash: match &self.commit_hash {
                Some(s) => Some(s.clone()),
                None => None,
            },
        }
    }
}

/// The remainder of the first line of `lines` that begins with `prefix`.
pub open spec fn first_with_prefix(lines: Seq<Seq<char>>, prefix: Seq<char>) -> Option<Seq<char>>
    decreases lines.len(),
{
    if lines.len() == 0 {
        None
    } else if spec_starts_with(lines[0], prefix) {
        Some(lines[0].skip(prefix.len() as int))
    } else {
        first_with_prefix(lines.skip(1), prefix)
    }
}

/// The first whitespace-separated token of the first line, when there is
/// one.
pub open spec fn first_commit_token(lines: Seq<Seq<char>>) -> Option<Seq<char>> {
    if lines.len() > 0 && spec_tokens(lines[0]).len() > 0 {
        Some(spec_tokens(lines[0])[0])
    } else {
        None
    }
}

/// The first of two optional values.
pub open spec fn opt_first(a: Option<Seq<char>>, b: Option<Seq<char>>) -> Option<Seq<char>> {
    match a {
        Some(x) => Some(x),
        None => b,
    }
}

/// What line-oriented blame output resolves to: the first `author` /
/// `author-mail` values, falling back to `committer` / `committer-mail`,
/// and the first token of the first line as the commit hash.
pub open spec fn blame_attribution(text: Seq<char>) -> AttributionModel {
    let lines = spec_lines(text);
    AttributionModel {
        name: opt_first(
            first_with_prefix(lines, "author "@),
            first_with_prefix(lines, "committer "@),
        ),
        email: opt_first(
            first_with_prefix(lines, "author-mail "@),
            first_with_prefix(lines, "committer-mail "@),
        ),
        commit_hash: first_commit_token(lines),
    }
}

/// The remainder of the first line that begins with `prefix`.
fn find_prefixed(lines: &Vec<String>, prefix: &str) -> (r: Option<String>)
    ensures
        r.deep_view() == first_with_prefix(lines.deep_view(), prefix@),
{
    let ghost lm = lines.deep_view();
    let n = lines.len();
    let plen = prefix.unicode_len();
    let mut i: usize = 0;
    proof {
        assert(lm.skip(0) =~= lm);
    }
    while i < n
        invariant
            lm == lines.deep_view(),
            n == lines@.len(),
            lm.len() == n,
            plen == prefix@.len(),
            i <= n,
            first_with_prefix(lm, prefix@) == first_with_prefix(lm.skip(i as int), prefix@),
        decreases n - i,
    {
        let line = &lines[i];
        proof {
            assert(lm.skip(i as int).len() > 0);
            assert(lm.skip(i as int)[0] == lm[i as int]);
            assert(lm[i as int] == lines@[i as int]@);
            assert(lm.skip(i as int).skip(1) =~= lm.skip(i + 1));
        }
        if starts_with(line.as_str(), prefix) {
            let len = line.as_str().unicode_len();
            let rest = line.as_str().substring_char(plen, len);
            return Some(rest.to_owned());
        }
        i += 1;
    }
    proof {
        assert(lm.skip(n as int).len() == 0);
    }
    None
}

/// Parses blame output into an attribution record.
pub fn parse_blame(text: &str) -> (r: AttributionInfo)
    ensures
        r@ == blame_attribution(text@),
{
    let lines = split_lines(text);
    let name = match find_prefixed(&lines, "author ") {
        Some(v) => Some(v),
        None => find_prefixed(&lines, "committer "),
    };
    let email = match find_prefixed(&lines, "author-mail ") {
        Some(v) => Some(v),
        None => find_prefixed(&lines, "committer-mail "),
    };
    let commit_hash = if lines.len() > 0 {
        let toks = tokenize(lines[0].as_str());
        if toks.len() > 0 {
            proof {
                assert(lines.deep_view()[0] == lines@[0]@);
                assert(toks.deep_view()[0] == toks@[0]@);
            }
            let mut toks = toks;
            let first = toks.remove(0);
            Some(first)
        } else {
            None
        }
    } else {
        None
    };
    let r = AttributionInfo { name, email, commit_hash };
    proof {
        assert(r@.name == blame_attribution(text@).name);
        assert(r@.email == blame_attribution(text@).email);
        assert(r@.commit_hash == blame_attribution(text@).commit_hash);
    }
    r
}

/// The author a hosting API's commit document names: its
/// `commit.author.name` and `commit.author.email` strings, with the
/// queried commit hash.
pub open spec fn commit_json_attribution(v: crate::json::JsonValue, commit: Seq<char>) -> AttributionModel {
    let author = crate::normalize::opt_get(
        crate::normalize::opt_get(Some(v), "commit"@),
        "author"@,
    );
    AttributionModel {
        name: match crate::normalize::opt_get(author, "name"@) {
            Some(crate::json::JsonValue::Str(s)) => Some(s@),
            _ => None,
        },
        email: match crate::normalize::opt_get(author, "email"@) {
            Some(crate::json::JsonValue::Str(s)) => Some(s@),
            _ => None,
        },
        commit_hash: Some(commit),
    }
}

/// Reads a hosting API's commit document into an attribution record.
pub fn attribution_from_commit_json(v: &crate::json::JsonValue, commit: &str) -> (r:
    AttributionInfo)
    ensures
        r@ == commit_json_attribution(*v, commit@),
{
    let author = crate::normalize::get_opt(crate::normalize::get_opt(Some(v), "commit"), "author");
    let name = match crate::normalize::get_opt(author, "name") {
        Some(x) => match x.as_str() {
            Some(s) => Some(s.clone()),
            None => None,
        },
        None => None,
    };
    let email = match crate::normalize::get_opt(author, "email") {
        Some(x) => match x.as_str() {
            Some(s) => Some(s.clone()),
            None => None,
        },
        None => None,
    };
    AttributionInfo { name, email, commit_hash: Some(commit.to_owned()) }
}

/// What the strategy chain resolves to: the blame parse when it resolved
/// anything, else the remote answer when it resolved anything, else the
/// all-null record.
pub open spec fn spec_resolve(
    blame: Option<Seq<char>>,
    remote: Option<AttributionModel>,
) -> AttributionModel {
    let from_blame = match blame {
        Some(t) => blame_attribution(t),
        None => null_attribution(),
    };
    if attribution_resolved(from_blame) {
        from_blame
    } else {
        match remote {
            Some(a) => if attribution_resolved(a) {
                a
            } else {
                null_attribution()
            },
            None => null_attribution(),
        }
    }
}

/// The option behind an optional reference to text.
pub open spec fn deref_opt_str(o: Option<&str>) -> Option<Seq<char>> {
    match o {
        Some(s) => Some(s@),
        None => None,
    }
}

/// The option behind an optional reference to an attribution.
pub open spec fn deref_opt_attr(o: Option<&AttributionInfo>) -> Option<AttributionModel> {
    match o {
        Some(a) => Some(a@),
        None => None,
    }
}

/// Applies the strategy chain to the outcomes the caller gathered: blame
/// output first, the remote answer second, all-null last. First success
/// wins; nothing is retried.
pub fn resolve_attribution(blame: Option<&str>, remote: Option<&AttributionInfo>) -> (r:
    AttributionInfo)
    ensures
        r@ == spec_resolve(deref_opt_str(blame), deref_opt_attr(remote)),
{
    let parsed = match blame {
        Some(t) => parse_blame(t),
        None => AttributionInfo::none(),
    };
    if parsed.is_resolved() {
        parsed
    } else {
        match remote {
            Some(a) => {
                if a.is_resolved() {
                    a.duplicate()
                } else {
                    AttributionInfo::none()
                }
            },
            None => AttributionInfo::none(),
        }
    }
}

} // verus!
