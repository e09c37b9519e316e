use vstd::prelude::*;
use crate::models::{DetectionResult, Flag, Severity, flag_texts, flags_to_strings, opt_view, string_views};
use crate::text::{contains_text, has_sub, lines_of, lower_of, lowercase, split_lines, trim, trim_of};

verus! {

/// The path lies under a temporary directory.
pub open spec fn in_temp(p: Seq<char>) -> bool {
    has_sub(p, "\\appdata\\local\\temp\\"@) || has_sub(p, "\\windows\\temp\\"@)
}

/// The path lies under a downloads directory.
pub open spec fn in_downloads(p: Seq<char>) -> bool {
    has_sub(p, "\\downloads\\"@)
}

/// The path lies under an application-data directory.
pub open spec fn in_appdata(p: Seq<char>) -> bool {
    has_sub(p, "\\appdata\\roaming\\"@) || has_sub(p, "\\appdata\\local\\"@)
}

/// The dual-use system utilities, by lower-cased name.
pub open spec fn lolbin_names() -> Seq<Seq<char>> {
    seq![
        "powershell.exe"@, "pwsh.exe"@, "cmd.exe"@, "wscript.exe"@, "cscript.exe"@,
        "mshta.exe"@, "rundll32.exe"@, "regsvr32.exe"@, "certutil.exe"@, "bitsadmin.exe"@,
        "wmic.exe"@,
    ]
}

/// A lower-cased name is that of a dual-use utility.
pub open spec fn is_lolbin(n: Seq<char>) -> bool {
    lolbin_names().contains(n)
}

/// `f` when `b` holds, nothing otherwise.
pub open spec fn flag_if(b: bool, f: Flag) -> Seq<Flag> {
    if b { seq![f] } else { Seq::empty() }
}

/// The location flags of a lower-cased path, in evaluation order.
pub open spec fn path_flags(p: Seq<char>) -> Seq<Flag> {
    flag_if(in_temp(p), Flag::ExecFromTemp) + flag_if(in_downloads(p), Flag::ExecFromDownloads)
        + flag_if(in_appdata(p), Flag::ExecFromAppdata)
}

/// The flags of the quick screen of a process.
pub open spec fn quick_spec(allow: Set<Seq<char>>, name: Seq<char>, path: Option<Seq<char>>) -> Seq<Flag> {
    let n = lower_of(name);
    let location = match path {
        Some(p) => if lower_of(p).len() == 0 { seq![Flag::NoExePath] } else { path_flags(lower_of(p)) },
        None => seq![Flag::NoExePath],
    };
    location + flag_if(is_lolbin(n), Flag::LolbinProcess) + flag_if(
        allow.contains(n),
        Flag::AllowlistedName,
    )
}

/// The flags of the full classification of a process.
pub open spec fn detect_spec(
    allow: Set<Seq<char>>,
    name: Seq<char>,
    path: Option<Seq<char>>,
    has_digest: bool,
) -> Seq<Flag> {
    let n = lower_of(name);
    if allow.contains(n) {
        seq![Flag::AllowlistedName]
    } else {
        let location = match path {
            Some(p) => path_flags(lower_of(p)),
            None => Seq::empty(),
        };
        flag_if(path is None, Flag::NoExePath) + flag_if(!has_digest, Flag::NoHash) + location
            + flag_if(is_lolbin(n), Flag::LolbinProcess)
    }
}

/// The severity that a set of flags earns, by the fixed priority cascade.
pub open spec fn severity_of(flags: Seq<Flag>) -> Severity {
    if flags.contains(Flag::ExecFromTemp) && flags.contains(Flag::LolbinProcess) {
        Severity::High
    } else if flags.contains(Flag::ExecFromTemp) || flags.contains(Flag::ExecFromDownloads)
        || flags.contains(Flag::ExecFromAppdata) || flags.contains(Flag::LolbinProcess) {
        Severity::Medium
    } else {
        Severity::Low
    }
}

/// The quick-screen flags that warrant computing a content digest.
pub open spec fn escalates(flags: Seq<Flag>) -> bool {
    flags.contains(Flag::ExecFromTemp) || flags.contains(Flag::ExecFromDownloads)
        || flags.contains(Flag::ExecFromAppdata) || flags.contains(Flag::LolbinProcess)
}

/// A token of a flag that warrants computing a content digest.
pub open spec fn escalation_token(t: Seq<char>) -> bool {
    t == "exec_from_temp"@ || t == "exec_from_downloads"@ || t == "exec_from_appdata"@
        || t == "lolbin_process"@
}

/// Some token of a flag set warrants computing a content digest.
pub open spec fn tokens_escalate(ts: Seq<Seq<char>>) -> bool {
    exists|k: int| 0 <= k < ts.len() && escalation_token(#[trigger] ts[k])
}

/// The allow-list entry that one line of an allow-list source yields, if any.
pub open spec fn entry_of(line: Seq<char>) -> Option<Seq<char>> {
    let t = trim_of(line);
    if t.len() == 0 || t[0] == '#' {
        None
    } else {
        Some(lower_of(t))
    }
}

/// The entries of the first `k` lines of a line sequence.
pub open spec fn entries_upto(lines: Seq<Seq<char>>, k: int) -> Set<Seq<char>> {
    Set::new(|n: Seq<char>| exists|i: int| 0 <= i < k && #[trigger] entry_of(lines[i]) == Some(n))
}

/// The allow-list that a line-oriented source yields.
pub open spec fn allow_set_of(content: Seq<char>) -> Set<Seq<char>> {
    entries_upto(lines_of(content), lines_of(content).len() as int)
}

/// The rule engine: the allow-list of trusted process names and the heuristics
/// that screen and classify processes against it.
#[derive(Clone, Debug)]
pub struct RuleEngine {
    allowlisted_names: Vec<String>,
}

impl View for RuleEngine {
    type V = Set<Seq<char>>;

    closed spec fn view(&self) -> Set<Seq<char>> {
        string_views(self.allowlisted_names@).to_set()
    }
}

/// Whether a flag occurs in a sequence of flags.
fn has_flag(flags: &Vec<Flag>, f: Flag) -> (r: bool)
    ensures
        r == flags@.contains(f),
{
    let mut i: usize = 0;
    while i < flags.len()
        invariant
            i <= flags@.len(),
            forall|j: int| 0 <= j < i ==> flags@[j] != f,
        decreases flags@.len() - i,
    {
        if flags[i] == f {
            return true;
        }
        i = i + 1;
    }
    false
}

/// Whether a lower-cased name is that of a dual-use utility.
fn lolbin_name(n: &str) -> (r: bool)
    ensures
        r == is_lolbin(n@),
{
    let names: [&str; 11] = [
        "powershell.exe", "pwsh.exe", "cmd.exe", "wscript.exe", "cscript.exe", "mshta.exe",
        "rundll32.exe", "regsvr32.exe", "certutil.exe", "bitsadmin.exe", "wmic.exe",
    ];
    let ghost want = lolbin_names();
    assert(names@.map_values(|s: &str| s@) =~= want);
    let mut i: usize = 0;
    while i < 11
        invariant
            i <= 11,
            names@.map_values(|s: &str| s@) == want,
            want == lolbin_names(),
            want.len() == 11,
            forall|j: int| 0 <= j < i ==> want[j] != n@,
        decreases 11 - i,
    {
        let c = names[i];
        assert(c@ == want[i as int]);
        if c.to_owned() == n.to_owned() {
            assert(want[i as int] == n@);
            return true;
        }
        i = i + 1;
    }
    false
}

/// Pushes the location flags of a lower-cased path.
fn push_path_flags(flags: &mut Vec<Flag>, p: &str)
    ensures
        final(flags)@ == old(flags)@ + path_flags(p@),
{
    let ghost start = flags@;
    if contains_text(p, "\\appdata\\local\\temp\\") || contains_text(p, "\\windows\\temp\\") {
        flags.push(Flag::ExecFromTemp);
    }
    assert(flags@ =~= start + flag_if(in_temp(p@), Flag::ExecFromTemp));
    let ghost mid = flags@;
    if contains_text(p, "\\downloads\\") {
        flags.push(Flag::ExecFromDownloads);
    }
    assert(flags@ =~= mid + flag_if(in_downloads(p@), Flag::ExecFromDownloads));
    let ghost mid2 = flags@;
    if contains_text(p, "\\appdata\\roaming\\") || contains_text(p, "\\appdata\\local\\") {
        flags.push(Flag::ExecFromAppdata);
    }
    assert(flags@ =~= mid2 + flag_if(in_appdata(p@), Flag::ExecFromAppdata));
    assert(flags@ =~= start + path_flags(p@));
}

/// The severity that a sequence of flags earns.
fn severity_for(flags: &Vec<Flag>) -> (r: Severity)
    ensures
        r == severity_of(flags@),
{
    let temp = has_flag(flags, Flag::ExecFromTemp);
    let lolbin = has_flag(flags, Flag::LolbinProcess);
    if temp && lolbin {
        Severity::High
    } else if temp || has_flag(flags, Flag::ExecFromDownloads) || has_flag(
        flags,
        Flag::ExecFromAppdata,
    ) || lolbin {
        Severity::Medium
    } else {
        Severity::Low
    }
}

/// The escalation predicate over a quick-screen result: true when it holds a
/// location flag or the dual-use flag.
pub fn escalates_on(flags: &Vec<String>) -> (r: bool)
    ensures
        r == tokens_escalate(string_views(flags@)),
{
    let temp = "exec_from_temp".to_owned();
    let downloads = "exec_from_downloads".to_owned();
    let appdata = "exec_from_appdata".to_owned();
    let lolbin = "lolbin_process".to_owned();
    let mut i: usize = 0;
    while i < flags.len()
        invariant
            i <= flags@.len(),
            temp@ == "exec_from_temp"@,
            downloads@ == "exec_from_downloads"@,
            appdata@ == "exec_from_appdata"@,
            lolbin@ == "lolbin_process"@,
            forall|k: int| 0 <= k < i ==> !escalation_token(#[trigger] string_views(flags@)[k]),
        decreases flags@.len() - i,
    {
        let f = &flags[i];
        if *f == temp || *f == downloads || *f == appdata || *f == lolbin {
            assert(escalation_token(string_views(flags@)[i as int]));
            return true;
        }
        i = i + 1;
    }
    false
}

impl RuleEngine {
    /// An engine whose allow-list is empty.
    pub fn new() -> (r: RuleEngine)
        ensures
            r@ == Set::<Seq<char>>::empty(),
    {
        let r = RuleEngine { allowlisted_names: Vec::new() };
        assert(r@ =~= Set::<Seq<char>>::empty());
        r
    }

    /// Builds the allow-list from a line-oriented source: blank lines and
    /// lines that start with `#` (after trimming) are skipped, every other
    /// line is trimmed, lower-cased and taken in.
    pub fn from_allowlist_text(content: &str) -> (r: RuleEngine)
        ensures
            r@ == allow_set_of(content@),
    {
        let lines = split_lines(content);
        let ghost ls = lines_of(content@);
        let mut names: Vec<String> = Vec::new();
        let mut i: usize = 0;
        while i < lines.len()
            invariant
                i <= lines@.len(),
                lines@.map_values(|l: &str| l@) == ls,
                string_views(names@).to_set() == entries_upto(ls, i as int),
            decreases lines@.len() - i,
        {
            let line = lines[i];
            assert(line@ == ls[i as int]);
            let t = trim(line);
            let ghost before = names@;
            if !(t.is_empty() || t.get_char(0) == '#') {
                let n = lowercase(t);
                names.push(n);
            }
            proof {
                assert(string_views(names@).to_set() =~= entries_upto(ls, i + 1)) by {
                    if t@.len() == 0 || t@[0] == '#' {
                        assert(names@ == before);
                    } else {
                        assert(string_views(names@) =~= string_views(before).push(lower_of(t@)));
                    }
                    assert forall|n: Seq<char>| #[trigger] entries_upto(ls, i + 1).contains(n)
                        implies string_views(names@).to_set().contains(n) by {
                        let j = choose|j: int| 0 <= j < i + 1 && #[trigger] entry_of(ls[j]) == Some(n);
                        if j < i {
                            assert(entries_upto(ls, i as int).contains(n));
                            let k = choose|k: int| 0 <= k < string_views(before).len()
                                && string_views(before)[k] == n;
                            assert(string_views(names@)[k] == n);
                        } else {
                            assert(j == i);
                            assert(string_views(names@)[before.len() as int] == n);
                        }
                    }
                    assert forall|n: Seq<char>| #[trigger] string_views(names@).to_set().contains(n)
                        implies entries_upto(ls, i + 1).contains(n) by {
                        let k = choose|k: int| 0 <= k < string_views(names@).len() && string_views(names@)[k] == n;
                        if k < before.len() {
                            assert(string_views(before)[k] == n);
                            assert(string_views(before).to_set().contains(n));
                            let j = choose|j: int| 0 <= j < i && #[trigger] entry_of(ls[j]) == Some(n);
                            assert(0 <= j < i + 1);
                        } else {
                            assert(entry_of(ls[i as int]) == Some(n));
                        }
                    }
                }
            }
            i = i + 1;
        }
        RuleEngine { allowlisted_names: names }
    }

    /// Whether an already lower-cased name is on the allow-list.
    fn contains_lower(&self, n: &String) -> (r: bool)
        ensures
            r == self@.contains(n@),
    {
        let mut i: usize = 0;
        while i < self.allowlisted_names.len()
            invariant
                i <= self.allowlisted_names@.len(),
                forall|j: int| 0 <= j < i ==> self.allowlisted_names@[j]@ != n@,
            decreases self.allowlisted_names@.len() - i,
        {
            if self.allowlisted_names[i] == *n {
                assert(string_views(self.allowlisted_names@)[i as int] == n@);
                return true;
            }
            i = i + 1;
        }
        proof {
            if self@.contains(n@) {
                let k = choose|k: int| 0 <= k < string_views(self.allowlisted_names@).len()
                    && string_views(self.allowlisted_names@)[k] == n@;
                assert(self.allowlisted_names@[k]@ == n@);
            }
        }
        false
    }

    /// Whether a process name is on the allow-list, ignoring case.
    pub fn is_allowlisted(&self, name: &str) -> (r: bool)
        ensures
            r == self@.contains(lower_of(name@)),
    {
        let n = lowercase(name);
        self.contains_lower(&n)
    }

    /// The quick-screen flags of a process, as flags.
    fn quick_flag_list(&self, proc_name: &str, exe_path: Option<&str>) -> (r: Vec<Flag>)
        ensures
            r@ == quick_spec(self@, proc_name@, opt_view(exe_path)),
    {
        let mut flags: Vec<Flag> = Vec::new();
        let name_lc = lowercase(proc_name);
        match exe_path {
            Some(p) => {
                let path_lc = lowercase(p);
                if path_lc.as_str().is_empty() {
                    flags.push(Flag::NoExePath);
                } else {
                    push_path_flags(&mut flags, path_lc.as_str());
                }
            },
            None => {
                flags.push(Flag::NoExePath);
            },
        }
        let ghost located = flags@;
        if lolbin_name(name_lc.as_str()) {
            flags.push(Flag::LolbinProcess);
        }
        let ghost named = flags@;
        assert(named =~= located + flag_if(is_lolbin(lower_of(proc_name@)), Flag::LolbinProcess));
        if self.contains_lower(&name_lc) {
            flags.push(Flag::AllowlistedName);
        }
        assert(flags@ =~= named + flag_if(self@.contains(lower_of(proc_name@)), Flag::AllowlistedName));
        flags
    }

    /// The quick screen: the cheap pass over name and path that decides
    /// whether a content digest is worth computing. Returns the tokens of
    /// `quick_spec`, in evaluation order; an allow-listed name adds its flag
    /// to the others.
    pub fn quick_flags(&self, proc_name: &str, exe_path: Option<&str>) -> (r: Vec<String>)
        ensures
            string_views(r@) == flag_texts(quick_spec(self@, proc_name@, opt_view(exe_path))),
    {
        let flags = self.quick_flag_list(proc_name, exe_path);
        flags_to_strings(&flags)
    }

    /// The full classification of a process: an allow-listed name yields its
    /// flag alone; otherwise every matching heuristic adds its flag, and the
    /// severity follows the priority cascade.
    pub fn detect(&self, proc_name: &str, exe_path: Option<&str>, sha256: Option<&str>) -> (r:
        DetectionResult)
        ensures
            string_views(r.flags@) == flag_texts(
                detect_spec(self@, proc_name@, opt_view(exe_path), sha256 is Some),
            ),
            r.severity == severity_of(
                detect_spec(self@, proc_name@, opt_view(exe_path), sha256 is Some),
            ),
    {
        let mut flags: Vec<Flag> = Vec::new();
        let name_lc = lowercase(proc_name);
        if self.contains_lower(&name_lc) {
            flags.push(Flag::AllowlistedName);
            assert(flags@ =~= seq![Flag::AllowlistedName]);
            let severity = severity_for(&flags);
            return DetectionResult { flags: flags_to_strings(&flags), severity };
        }
        if exe_path.is_none() {
            flags.push(Flag::NoExePath);
        }
        let ghost a = flags@;
        if sha256.is_none() {
            flags.push(Flag::NoHash);
        }
        let ghost b = flags@;
        assert(b =~= a + flag_if(sha256 is None, Flag::NoHash));
        match exe_path {
            Some(p) => {
                let path_lc = lowercase(p);
                push_path_flags(&mut flags, path_lc.as_str());
            },
            None => {},
        }
        let ghost c = flags@;
        if lolbin_name(name_lc.as_str()) {
            flags.push(Flag::LolbinProcess);
        }
        assert(flags@ =~= c + flag_if(is_lolbin(lower_of(proc_name@)), Flag::LolbinProcess));
        assert(flags@ =~= detect_spec(self@, proc_name@, opt_view(exe_path), sha256 is Some));
        let severity = severity_for(&flags);
        DetectionResult { flags: flags_to_strings(&flags), severity }
    }

    /// The escalation decision: a content digest is computed exactly when a
    /// path is present and the quick screen raised a location or dual-use flag.
    pub fn digest_wanted(&self, proc_name: &str, exe_path: Option<&str>) -> (r: bool)
        ensures
            r == (exe_path is Some && escalates(quick_spec(self@, proc_name@, opt_view(exe_path)))),
    {
        let quick = self.quick_flags(proc_name, exe_path);
        proof {
            lemma_escalation_by_tokens(quick_spec(self@, proc_name@, opt_view(exe_path)));
        }
        escalates_on(&quick) && exe_path.is_some()
    }
}

/// An allow-listed name, in any case, is classified by its allow-list flag
/// alone and at low severity, whatever its path and digest.
pub proof fn lemma_allowlisted_short_circuit(
    allow: Set<Seq<char>>,
    name: Seq<char>,
    path: Option<Seq<char>>,
    has_digest: bool,
)
    requires
        allow.contains(lower_of(name)),
    ensures
        detect_spec(allow, name, path, has_digest) == seq![Flag::AllowlistedName],
        severity_of(detect_spec(allow, name, path, has_digest)) == Severity::Low,
{
    let f = seq![Flag::AllowlistedName];
    assert(!f.contains(Flag::ExecFromTemp) && !f.contains(Flag::ExecFromDownloads)
        && !f.contains(Flag::ExecFromAppdata) && !f.contains(Flag::LolbinProcess)) by {
        assert(f.len() == 1 && f[0] == Flag::AllowlistedName);
    }
}

/// A classification carries no flag exactly when the name is not allow-listed,
/// a path and a digest are both present, no location matches and the name is
/// not that of a dual-use utility; such a process is of low severity.
pub proof fn lemma_empty_flags(
    allow: Set<Seq<char>>,
    name: Seq<char>,
    path: Option<Seq<char>>,
    has_digest: bool,
)
    ensures
        detect_spec(allow, name, path, has_digest).len() == 0 <==> (!allow.contains(lower_of(name))
            && path is Some && has_digest && path_flags(lower_of(path->0)).len() == 0
            && !is_lolbin(lower_of(name))),
        detect_spec(allow, name, path, has_digest).len() == 0 ==> severity_of(
            detect_spec(allow, name, path, has_digest),
        ) == Severity::Low,
{
}

/// The quick screen is a function of its inputs: two screens of the same
/// process against the same allow-list give the same tokens.
pub proof fn lemma_quick_screen_repeatable(
    allow: Set<Seq<char>>,
    name: Seq<char>,
    path: Option<Seq<char>>,
    first: Seq<Seq<char>>,
    second: Seq<Seq<char>>,
)
    requires
        first == flag_texts(quick_spec(allow, name, path)),
        second == flag_texts(quick_spec(allow, name, path)),
    ensures
        first == second,
        tokens_escalate(first) == tokens_escalate(second),
{
}

/// Deciding escalation on the tokens of a flag set agrees with deciding it
/// on the flags: some token warrants a digest exactly when a location flag
/// or the dual-use flag is present.
pub proof fn lemma_escalation_by_tokens(flags: Seq<Flag>)
    ensures
        tokens_escalate(flag_texts(flags)) == escalates(flags),
{
    reveal_strlit("no_exe_path");
    reveal_strlit("no_hash");
    reveal_strlit("exec_from_temp");
    reveal_strlit("exec_from_downloads");
    reveal_strlit("exec_from_appdata");
    reveal_strlit("lolbin_process");
    reveal_strlit("allowlisted_name");
    let ts = flag_texts(flags);
    if escalates(flags) {
        let f = if flags.contains(Flag::ExecFromTemp) {
            Flag::ExecFromTemp
        } else if flags.contains(Flag::ExecFromDownloads) {
            Flag::ExecFromDownloads
        } else if flags.contains(Flag::ExecFromAppdata) {
            Flag::ExecFromAppdata
        } else {
            Flag::LolbinProcess
        };
        let k = choose|k: int| 0 <= k < flags.len() && flags[k] == f;
        assert(escalation_token(ts[k]));
    }
    if tokens_escalate(ts) {
        let k = choose|k: int| 0 <= k < ts.len() && escalation_token(#[trigger] ts[k]);
        assert(ts[k] == flags[k].text());
        assert(flags.contains(flags[k]));
    }
}

/// Blank lines and comment lines of an allow-list source add nothing; every
/// other line adds its trimmed, lower-cased form, so that an entry written in
/// any case is found under its lower-cased name.
pub proof fn lemma_allowlist_lines(content: Seq<char>, i: int)
    requires
        0 <= i < lines_of(content).len(),
    ensures
        ({
            let t = trim_of(lines_of(content)[i]);
            (t.len() == 0 || t[0] == '#') ==> entry_of(lines_of(content)[i]) is None
        }),
        ({
            let t = trim_of(lines_of(content)[i]);
            !(t.len() == 0 || t[0] == '#') ==> allow_set_of(content).contains(lower_of(t))
        }),
{
    let t = trim_of(lines_of(content)[i]);
    if !(t.len() == 0 || t[0] == '#') {
        assert(entry_of(lines_of(content)[i]) == Some(lower_of(t)));
    }
}

} // verus!
