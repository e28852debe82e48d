//! What a run records about itself.
use vstd::prelude::*;
use crate::args::arg_views;

verus! {

/// The metadata stored with each run (`metadata.json`).
#[derive(Clone, Debug)]
pub struct Metadata {
    pub git_commit: String,
    pub git_branch: String,
    pub dirty: bool,
    pub ledger_size: u64,
    pub runs: u64,
    pub warmup: u64,
    pub perf_frequency: u64,
    pub perf_call_graph: String,
    pub enabled_tools: Vec<String>,
    pub command: String,
    pub binary: String,
    pub build_command: Option<String>,
    pub timestamp_unix_seconds: u64,
    /// Versions of the programs used, by program name, in name order.
    pub tools: Vec<(String, String)>,
}

/// [`Metadata`] with its strings as character sequences.
#[verifier::ext_equal]
pub struct MetadataView {
    pub git_commit: Seq<char>,
    pub git_branch: Seq<char>,
    pub dirty: bool,
    pub ledger_size: u64,
    pub runs: u64,
    pub warmup: u64,
    pub perf_frequency: u64,
    pub perf_call_graph: Seq<char>,
    pub enabled_tools: Seq<Seq<char>>,
    pub command: Seq<char>,
    pub binary: Seq<char>,
    pub build_command: Option<Seq<char>>,
    pub timestamp_unix_seconds: u64,
    pub tools: Seq<(Seq<char>, Seq<char>)>,
}

/// The texts of name/version pairs.
pub open spec fn pair_views(v: Seq<(String, String)>) -> Seq<(Seq<char>, Seq<char>)> {
    v.map_values(|p: (String, String)| (p.0@, p.1@))
}

impl View for Metadata {
    type V = MetadataView;

    open spec fn view(&self) -> MetadataView {
        MetadataView {
            git_commit: self.git_commit@,
            git_branch: self.git_branch@,
            dirty: self.dirty,
            ledger_size: self.ledger_size,
            runs: self.runs,
            warmup: self.warmup,
            perf_frequency: self.perf_frequency,
            perf_call_graph: self.perf_call_graph@,
            enabled_tools: arg_views(self.enabled_tools@),
            command: self.command@,
            binary: self.binary@,
            build_command: crate::cli::opt_view(self.build_command),
            timestamp_unix_seconds: self.timestamp_unix_seconds,
            tools: pair_views(self.tools@),
        }
    }
}

/// The perf sampling frequency of metadata that does not record one.
pub fn default_perf_frequency() -> (f: u64)
    ensures
        f == 997,
{
    997
}

/// The call-graph mode of metadata that does not record one.
pub fn default_perf_call_graph() -> (s: String)
    ensures
        s@ == "dwarf"@,
{
    "dwarf".to_owned()
}

/// The profilers of metadata that does not record them: all three.
pub fn default_enabled_tools() -> (v: Vec<String>)
    ensures
        arg_views(v@) == seq!["hyperfine"@, "perf"@, "heaptrack"@],
{
    let mut v: Vec<String> = Vec::new();
    v.push("hyperfine".to_owned());
    v.push("perf".to_owned());
    v.push("heaptrack".to_owned());
    assert(arg_views(v@) =~= seq!["hyperfine"@, "perf"@, "heaptrack"@]);
    v
}

} // verus!
