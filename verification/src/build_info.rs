//! Provenance of this build.
use vstd::prelude::*;

use crate::text::{owned, push_str, str_eq};

verus! {

/// Package version.
pub const VERSION: &'static str = "3.0.0";

/// Release channel: a build outside the project's CI is a local build.
pub const CHANNEL: &'static str = "local-development";

/// Where the source came from.
pub const SOURCE: &'static str = "local source tree";

/// Source revision.
pub const REVISION: &'static str = "uncommitted";

/// Version with the build provenance, as `--version` prints it.
pub const LONG_VERSION: &'static str = "3.0.0\nBuild channel: local-development\nSource: local source tree\nRevision: uncommitted";

/// Searchable provenance marker of the build.
pub const BUILD_WATERMARK: &'static str = "TCP Optimiser | channel=local-development | source=local source tree | revision=uncommitted";

#[derive(Debug, Clone, Copy)]
pub struct BuildInfo {
    pub version: &'static str,
    pub channel: &'static str,
    pub source: &'static str,
    pub revision: &'static str,
}

/// The provenance of this build; every field is non-empty.
pub fn current() -> (r: BuildInfo)
    ensures
        r.version@ == "3.0.0"@,
        r.channel@ == "local-development"@,
        r.source@ == "local source tree"@,
        r.revision@ == "uncommitted"@,
        r.version@.len() > 0 && r.channel@.len() > 0 && r.source@.len() > 0 && r.revision@.len() > 0,
{
    proof {
        reveal_strlit("3.0.0");
        reveal_strlit("local-development");
        reveal_strlit("local source tree");
        reveal_strlit("uncommitted");
    }
    BuildInfo { version: VERSION, channel: CHANNEL, source: SOURCE, revision: REVISION }
}

/// Channel of a build made by the project's CI.
pub const OFFICIAL_CHANNEL: &'static str = "official-github";

/// Channel of a CI build of a pull request.
pub const CANDIDATE_CHANNEL: &'static str = "pull-request-candidate";

/// The provenance recorded in a build.
#[derive(Debug, Clone)]
pub struct BuildProvenance {
    pub channel: String,
    pub source: String,
    pub revision: String,
}

pub open spec fn or_default(v: Option<&str>, d: Seq<char>) -> Seq<char> {
    match v {
        Some(s) => s@,
        None => d,
    }
}

/// The provenance of a build from its environment: a build is official
/// only when `official` is exactly `1`; it then takes the requested channel
/// (official by default, and only the official or the candidate channel),
/// the repository (the project's by default) and the revision (`unknown` by
/// default); any other build is a local one. `None` for an unsupported
/// channel, which fails the build.
pub open spec fn provenance_spec(
    official: Option<&str>,
    channel: Option<&str>,
    repository: Option<&str>,
    revision: Option<&str>,
) -> Option<(Seq<char>, Seq<char>, Seq<char>)> {
    if official matches Some(o) && o@ == "1"@ {
        let c = or_default(channel, "official-github"@);
        if c == "official-github"@ || c == "pull-request-candidate"@ {
            Some(
                (
                    c,
                    "https://github.com/"@ + or_default(repository, "Zhanfg/TCP_Optimiser_RS"@),
                    or_default(revision, "unknown"@),
                ),
            )
        } else {
            None
        }
    } else {
        Some(("local-development"@, "local source tree"@, "uncommitted"@))
    }
}

fn or_default_exec(v: Option<&str>, d: &str) -> (r: String)
    ensures
        r@ == or_default(v, d@),
{
    match v {
        Some(s) => owned(s),
        None => owned(d),
    }
}

pub fn provenance(
    official: Option<&str>,
    channel: Option<&str>,
    repository: Option<&str>,
    revision: Option<&str>,
) -> (r: Option<BuildProvenance>)
    ensures
        match provenance_spec(official, channel, repository, revision) {
            Some((c, s, v)) => r matches Some(p) && p.channel@ == c && p.source@ == s
                && p.revision@ == v,
            None => r is None,
        },
{
    let is_official = match official {
        Some(o) => str_eq(o, "1"),
        None => false,
    };
    if is_official {
        let c = or_default_exec(channel, OFFICIAL_CHANNEL);
        if !(str_eq(c.as_str(), OFFICIAL_CHANNEL) || str_eq(c.as_str(), CANDIDATE_CHANNEL)) {
            return None;
        }
        let mut source = owned("https://github.com/");
        let repo = or_default_exec(repository, "Zhanfg/TCP_Optimiser_RS");
        push_str(&mut source, repo.as_str());
        Some(BuildProvenance { channel: c, source, revision: or_default_exec(revision, "unknown") })
    } else {
        Some(
            BuildProvenance {
                channel: owned(CHANNEL),
                source: owned(SOURCE),
                revision: owned(REVISION),
            },
        )
    }
}

/// The searchable provenance marker of a build.
pub fn watermark(p: &BuildProvenance) -> (r: String)
    ensures
        r@ == "TCP Optimiser | channel="@ + p.channel@ + " | source="@ + p.source@ + " | revision="@
            + p.revision@,
{
    let mut out = owned("TCP Optimiser | channel=");
    push_str(&mut out, p.channel.as_str());
    push_str(&mut out, " | source=");
    push_str(&mut out, p.source.as_str());
    push_str(&mut out, " | revision=");
    push_str(&mut out, p.revision.as_str());
    out
}

/// The version with the build's provenance, as `--version` prints it.
pub fn long_version(p: &BuildProvenance) -> (r: String)
    ensures
        r@ == VERSION@ + "\nBuild channel: "@ + p.channel@ + "\nSource: "@ + p.source@
            + "\nRevision: "@ + p.revision@,
{
    let mut out = owned(VERSION);
    push_str(&mut out, "\nBuild channel: ");
    push_str(&mut out, p.channel.as_str());
    push_str(&mut out, "\nSource: ");
    push_str(&mut out, p.source.as_str());
    push_str(&mut out, "\nRevision: ");
    push_str(&mut out, p.revision.as_str());
    out
}

} // verus!

