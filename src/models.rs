use vstd::prelude::*;

verus! {

/// How much concern one observed process raises, from least to most.
#[derive(Clone, Copy, Debug, PartialEq, Eq, Structural)]
pub enum Severity {
    Low,
    Medium,
    High,
}

/// One token of a flag set, drawn from the fixed vocabulary of the rules.
#[derive(Clone, Copy, Debug, PartialEq, Eq, Structural)]
pub enum Flag {
    NoExePath,
    NoHash,
    ExecFromTemp,
    ExecFromDownloads,
    ExecFromAppdata,
    LolbinProcess,
    AllowlistedName,
}

impl Flag {
    /// The token under which the flag is emitted.
    pub open spec fn text(self) -> Seq<char> {
        match self {
            Flag::NoExePath => "no_exe_path"@,
            Flag::NoHash => "no_hash"@,
            Flag::ExecFromTemp => "exec_from_temp"@,
            Flag::ExecFromDownloads => "exec_from_downloads"@,
            Flag::ExecFromAppdata => "exec_from_appdata"@,
            Flag::LolbinProcess => "lolbin_process"@,
            Flag::AllowlistedName => "allowlisted_name"@,
        }
    }

    pub fn as_str(&self) -> (r: &'static str)
        ensures
            r@ == self.text(),
    {
        match self {
            Flag::NoExePath => "no_exe_path",
            Flag::NoHash => "no_hash",
            Flag::ExecFromTemp => "exec_from_temp",
            Flag::ExecFromDownloads => "exec_from_downloads",
            Flag::ExecFromAppdata => "exec_from_appdata",
            Flag::LolbinProcess => "lolbin_process",
            Flag::AllowlistedName => "allowlisted_name",
        }
    }
}

/// The tokens of a sequence of flags, in the same order.
pub open spec fn flag_texts(flags: Seq<Flag>) -> Seq<Seq<char>> {
    flags.map_values(|f: Flag| f.text())
}

/// The views of a sequence of strings.
pub open spec fn string_views(v: Seq<String>) -> Seq<Seq<char>> {
    v.map_values(|s: String| s@)
}

/// The view of an optional string slice.
pub open spec fn opt_view(o: Option<&str>) -> Option<Seq<char>> {
    match o {
        Some(s) => Some(s@),
        None => None,
    }
}

/// One process as the inventory reports it.
#[derive(Clone, Debug)]
pub struct ProcSnapshot {
    pub pid: u32,
    pub name: String,
    pub exe_path: Option<String>,
}

/// The classifier's verdict on one process.
#[derive(Clone, Debug)]
pub struct DetectionResult {
    pub flags: Vec<String>,
    pub severity: Severity,
}

/// Turns flags into their tokens.
pub fn flags_to_strings(flags: &Vec<Flag>) -> (r: Vec<String>)
    ensures
        string_views(r@) == flag_texts(flags@),
{
    let mut out: Vec<String> = Vec::new();
    let mut i: usize = 0;
    while i < flags.len()
        invariant
            i <= flags@.len(),
            out@.len() == i,
            forall|k: int| 0 <= k < i ==> #[trigger] out@[k]@ == flags@[k].text(),
        decreases flags@.len() - i,
    {
        let s = flags[i].as_str().to_owned();
        assert(s@ == flags@[i as int].text());
        out.push(s);
        i = i + 1;
    }
    assert(string_views(out@) =~= flag_texts(flags@));
    out
}

/// The record emitted for one process in one poll; its time is given in
/// microseconds since the Unix epoch, in UTC.
#[derive(Clone, Debug)]
pub struct ProcEvent {
    pub ts_utc: i64,
    pub pid: u32,
    pub name: String,
    pub exe_path: Option<String>,
    pub sha256: Option<String>,
    pub flags: Vec<String>,
    pub severity: Severity,
}

impl ProcEvent {
    /// The event for an observed process: its identity, the digest if one
    /// was computed, and the classifier's flags and severity.
    pub fn from_detection(
        ts_utc: i64,
        snap: ProcSnapshot,
        sha256: Option<String>,
        det: DetectionResult,
    ) -> (r: ProcEvent)
        ensures
            r.ts_utc == ts_utc,
            r.pid == snap.pid,
            r.name == snap.name,
            r.exe_path == snap.exe_path,
            r.sha256 == sha256,
            r.flags == det.flags,
            r.severity == det.severity,
    {
        ProcEvent {
            ts_utc,
            pid: snap.pid,
            name: snap.name,
            exe_path: snap.exe_path,
            sha256,
            flags: det.flags,
            severity: det.severity,
        }
    }

    /// Whether the event is also shown at once to a person: medium and high
    /// severity are, low is not.
    pub fn is_alert(&self) -> (r: bool)
        ensures
            r == (self.severity != Severity::Low),
    {
        match self.severity {
            Severity::Low => false,
            _ => true,
        }
    }
}

} // verus!
