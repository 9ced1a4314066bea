//! The interactive session engine: the input-mode state machine, the
//! command dispatcher and the scrollback paging over the process table.
use vstd::prelude::*;

use crate::facade;
use crate::render::{
    cpu_lines, cpu_table_of, desc_lines, desc_table_of, df_lines, df_table_of, gputemp_lines,
    gpu_temp_rows, hddtemp_lines, ident_lines, ident_lines_of, memory_lines, network_lines,
    net_rows_of, proc_header, ptable_lines, ptable_of, sensor_lines, sensor_rows_of,
    storage_temp_rows, TempKind,
};
use crate::text::{
    is_int_token, int_token_val, parse_i32, split_blanks, tokenize, u64_str, views_of,
    lemma_views_of_push,
};

verus! {

/// The two input modes: Normal accepts only the global shortcuts, Editing
/// accepts text entry, submission and paging.
#[derive(Clone, Copy, PartialEq, Eq, Structural, Debug)]
pub enum Mode {
    Normal,
    Editing,
}

/// One key event, as the session engine sees it.
#[derive(Clone, Copy, PartialEq, Eq, Structural, Debug)]
pub enum Key {
    Char(char),
    Enter,
    Backspace,
    Esc,
    Up,
    Down,
    Other,
}

/// What the surrounding program must do after a key was handled.
pub enum Effect {
    Continue,
    Quit,
    Spawn(String),
}

/// The whole session state.
pub struct App {
    /// The line being composed.
    pub input: String,
    /// Which keys are text and which are commands.
    pub mode: Mode,
    /// Every submitted line, in order.
    pub messages: Vec<String>,
    /// The lines currently displayed.
    pub output: Vec<String>,
    /// Paging is live: set only by the process table.
    pub scroll_enabled: bool,
    /// Data rows of the last paging-capable command.
    pub total_rows: usize,
    /// Rows scrolled past, restorable by paging up.
    pub history: Vec<String>,
}

/// While paging is live, the header is present and the data rows are split
/// between the visible window and the scrollback store.
pub open spec fn paging_ok(a: App) -> bool {
    a.scroll_enabled ==> a.output@.len() >= 1 && a.output@.len() - 1 + a.history@.len()
        == a.total_rows
}

/// How one editing key rewrites the composed line: a character key appends,
/// backspace removes the last character of a non-empty line, anything else
/// leaves it alone.
pub open spec fn edit_step(s: Seq<char>, k: Key) -> Seq<char> {
    match k {
        Key::Char(c) => s.push(c),
        Key::Backspace => if s.len() > 0 {
            s.drop_last()
        } else {
            s
        },
        _ => s,
    }
}

/// What one page-down step does: while paging is live, a data row is
/// visible and the store is under the cap, the topmost data row moves from
/// the window to the store; otherwise nothing changes.
pub open spec fn page_down_post(pre: App, post: App) -> bool {
    &&& post.mode == pre.mode
    &&& post.input == pre.input
    &&& post.messages == pre.messages
    &&& post.scroll_enabled == pre.scroll_enabled
    &&& post.total_rows == pre.total_rows
    &&& ((pre.scroll_enabled && pre.output@.len() >= 2 && pre.total_rows >= 45
        && pre.history@.len() <= pre.total_rows - 45) ==> post.output@ == pre.output@.remove(1)
        && post.history@ == pre.history@.push(pre.output@[1]))
    &&& (!(pre.scroll_enabled && pre.output@.len() >= 2 && pre.total_rows >= 45
        && pre.history@.len() <= pre.total_rows - 45) ==> post == pre)
}

/// What one page-up step does: while paging is live and the store holds a
/// row, its last row moves back into the window right below the header;
/// otherwise nothing changes.
pub open spec fn page_up_post(pre: App, post: App) -> bool {
    &&& post.mode == pre.mode
    &&& post.input == pre.input
    &&& post.messages == pre.messages
    &&& post.scroll_enabled == pre.scroll_enabled
    &&& post.total_rows == pre.total_rows
    &&& ((pre.scroll_enabled && pre.history@.len() >= 1 && pre.output@.len() >= 1)
        ==> post.output@ == pre.output@.insert(1, pre.history@.last()) && post.history@
        == pre.history@.drop_last())
    &&& (!(pre.scroll_enabled && pre.history@.len() >= 1 && pre.output@.len() >= 1) ==> post
        == pre)
}

impl App {
    /// A fresh session: empty containers, Normal mode, paging off.
    pub fn new() -> (r: App)
        ensures
            r.input@ == Seq::<char>::empty(),
            r.mode == Mode::Normal,
            r.messages@ == Seq::<String>::empty(),
            r.output@ == Seq::<String>::empty(),
            !r.scroll_enabled,
            r.total_rows == 0,
            r.history@ == Seq::<String>::empty(),
            paging_ok(r),
    {
        App {
            input: String::new(),
            mode: Mode::Normal,
            messages: Vec::new(),
            output: Vec::new(),
            scroll_enabled: false,
            total_rows: 0,
            history: Vec::new(),
        }
    }

    /// Makes `lines` the displayed table and turns paging on over its data
    /// rows; the first line is the header and is never scrolled away.
    pub fn show_table(&mut self, lines: Vec<String>)
        requires
            lines@.len() >= 1,
        ensures
            final(self).output@ == lines@,
            final(self).scroll_enabled,
            final(self).total_rows == lines@.len() - 1,
            final(self).history@ == Seq::<String>::empty(),
            final(self).mode == old(self).mode,
            final(self).input == old(self).input,
            final(self).messages == old(self).messages,
            paging_ok(*final(self)),
    {
        self.total_rows = lines.len() - 1;
        self.output = lines;
        self.scroll_enabled = true;
        self.history = Vec::new();
    }

    /// Pages down: while paging is live and the store is not yet at the cap,
    /// the topmost data row moves from the window to the scrollback store.
    pub fn page_down(&mut self)
        ensures
            page_down_post(*old(self), *final(self)),
            paging_ok(*old(self)) ==> paging_ok(*final(self)),
    {
        if self.scroll_enabled && self.output.len() >= 2 && self.total_rows >= 45
            && self.history.len() <= self.total_rows - 45 {
            let row = self.output.remove(1);
            self.history.push(row);
        }
    }

    /// Pages up: while paging is live and the store holds a row, its last
    /// row moves back into the window, right below the header.
    pub fn page_up(&mut self)
        ensures
            page_up_post(*old(self), *final(self)),
            paging_ok(*old(self)) ==> paging_ok(*final(self)),
    {
        if self.scroll_enabled && self.history.len() >= 1 && self.output.len() >= 1 {
            let row_opt = self.history.pop();
            match row_opt {
                Some(row) => {
                    self.output.insert(1, row);
                },
                None => {
                },
            }
        }
    }
}

/// The line shown for an unrecognized command name.
pub open spec fn not_found_line() -> Seq<char> {
    "command not found"@
}

/// The line shown when a facade query fails.
pub open spec fn facade_error_line() -> Seq<char> {
    "Error: system query failed"@
}

/// The sixteen lines of the usage text.
pub open spec fn help_texts() -> Seq<Seq<char>> {
    seq![
        "find (pid) --> retrieves the info of process with (pid)"@,
        "ignite (program) --> start new process"@,
        "ptable --> prints process table"@,
        "desc --> sort process table descendingly"@,
        "sysinfo --> retrieves system info"@,
        "kill (pid/name) --> kill process with (pid/name)"@,
        "uname --> prints the kernel version"@,
        "release --> prints the OS version"@,
        "hostname --> prints the hostname"@,
        "sensors --> prints the labels of various components with their associated temperatures"@,
        "df --> prints the disk filesystem information"@,
        "hddtemp --> prints the temperature of the internal HDD/SSD"@,
        "lscpu --> lists the processor information"@,
        "gputemp --> prints the temperature of the GPU"@,
        "network --> prints information pertaining to network utilization"@,
        "memory --> prints information pertaining to memory utilization"@,
    ]
}

/// A name the command table knows.
pub open spec fn known_command(name: Seq<char>) -> bool {
    ||| name == "uname"@
    ||| name == "release"@
    ||| name == "hostname"@
    ||| name == "sysinfo"@
    ||| name == "sensors"@
    ||| name == "df"@
    ||| name == "hddtemp"@
    ||| name == "lscpu"@
    ||| name == "gputemp"@
    ||| name == "kill"@
    ||| name == "ignite"@
    ||| name == "ptable"@
    ||| name == "clear"@
    ||| name == "help"@
    ||| name == "find"@
    ||| name == "network"@
    ||| name == "memory"@
    ||| name == "desc"@
}

/// The divisor the disk listing scales by: 2^10 for the KiB selector, 2^20
/// for the MiB selector, 1 otherwise. The selector is the argument with its
/// first character stripped.
pub open spec fn df_divisor(toks: Seq<Seq<char>>) -> int {
    if toks.len() == 2 {
        let u = if toks[1].len() >= 1 {
            toks[1].skip(1)
        } else {
            toks[1]
        };
        if u == "k"@ {
            1024
        } else if u == "m"@ {
            1048576
        } else {
            1
        }
    } else {
        1
    }
}

/// Whether the view of `s` is the view of the literal `t`.
fn str_is(s: &String, t: &str) -> (r: bool)
    ensures
        r == (s@ == t@),
{
    let t_string = String::from_str(t);
    *s == t_string
}

/// One line holding the value, or the fixed error line if the query failed.
fn one_or_err(v: Option<String>) -> (r: Vec<String>)
    ensures
        r@.len() == 1,
        match v {
            Some(s) => r@[0]@ == s@,
            None => r@[0]@ == facade_error_line(),
        },
{
    let mut out: Vec<String> = Vec::new();
    match v {
        Some(s) => {
            out.push(s);
        },
        None => {
            out.push(String::from_str("Error: system query failed"));
        },
    }
    out
}

/// The argument with its first character stripped, the empty argument
/// unchanged.
fn strip_first(s: &String) -> (r: String)
    ensures
        r@ == (if s@.len() >= 1 {
            s@.skip(1)
        } else {
            s@
        }),
{
    let n = s.as_str().unicode_len();
    if n >= 1 {
        let rest = s.as_str().substring_char(1, n);
        proof {
            assert(rest@ =~= s@.skip(1));
        }
        String::from_str(rest)
    } else {
        s.clone()
    }
}

/// The sixteen-line usage text.
pub fn help_lines() -> (r: Vec<String>)
    ensures
        views_of(r@) == help_texts(),
        r@.len() == 16,
{
    let mut out: Vec<String> = Vec::new();
    out.push(String::from_str("find (pid) --> retrieves the info of process with (pid)"));
    out.push(String::from_str("ignite (program) --> start new process"));
    out.push(String::from_str("ptable --> prints process table"));
    out.push(String::from_str("desc --> sort process table descendingly"));
    out.push(String::from_str("sysinfo --> retrieves system info"));
    out.push(String::from_str("kill (pid/name) --> kill process with (pid/name)"));
    out.push(String::from_str("uname --> prints the kernel version"));
    out.push(String::from_str("release --> prints the OS version"));
    out.push(String::from_str("hostname --> prints the hostname"));
    out.push(
        String::from_str(
            "sensors --> prints the labels of various components with their associated temperatures",
        ),
    );
    out.push(String::from_str("df --> prints the disk filesystem information"));
    out.push(String::from_str("hddtemp --> prints the temperature of the internal HDD/SSD"));
    out.push(String::from_str("lscpu --> lists the processor information"));
    out.push(String::from_str("gputemp --> prints the temperature of the GPU"));
    out.push(String::from_str("network --> prints information pertaining to network utilization"));
    out.push(String::from_str("memory --> prints information pertaining to memory utilization"));
    proof {
        assert(views_of(out@) =~= help_texts());
    }
    out
}

/// A process row matches a kill-by-name request: its name is exactly the
/// requested one.
pub open spec fn name_matches(p: facade::ProcRow, name: Seq<char>) -> bool {
    p.name@ == name
}

/// How many processes a kill-by-name request targets.
pub open spec fn count_matches(ps: Seq<facade::ProcRow>, name: Seq<char>) -> nat
    decreases ps.len(),
{
    if ps.len() == 0 {
        0
    } else {
        count_matches(ps.drop_last(), name) + (if name_matches(ps.last(), name) {
            1nat
        } else {
            0nat
        })
    }
}

/// A report line of the kill command: the fixed success line or an error
/// line.
pub open spec fn kill_line_ok(l: Seq<char>) -> bool {
    l == "Process killed successfully."@ || "Error killing process: "@.is_prefix_of(l)
}

/// The report line for one signalling outcome: a fixed success line, or an
/// error line carrying the failure's message.
pub fn kill_report_line(res: &Result<(), String>) -> (l: String)
    ensures
        res is Ok ==> l@ == "Process killed successfully."@,
        res matches Err(e) ==> l@ == "Error killing process: "@ + e@,
        kill_line_ok(l@),
{
    match res {
        Ok(_) => String::from_str("Process killed successfully."),
        Err(e) => {
            let mut l = String::from_str("Error killing process: ");
            l.append(e.as_str());
            proof {
                assert(("Error killing process: "@ + e@).subrange(
                    0,
                    "Error killing process: "@.len() as int,
                ) =~= "Error killing process: "@);
            }
            l
        },
    }
}

/// One report line for one signalled pid: success or the error's message.
fn kill_report(pid: i32) -> (r: String)
    ensures
        kill_line_ok(r@),
{
    let res = facade::send_sigterm(pid);
    kill_report_line(&res)
}

/// Signals every process whose name matches exactly; one report line per
/// target, in enumeration order, none when nothing matches.
fn kill_by_name_lines(ps: &Vec<facade::ProcRow>, name: &String) -> (r: Vec<String>)
    ensures
        r@.len() == count_matches(ps@, name@),
        forall|i: int| 0 <= i < r@.len() ==> kill_line_ok(#[trigger] r@[i]@),
{
    let mut out: Vec<String> = Vec::new();
    let mut i: usize = 0;
    proof {
        assert(ps@.take(0) =~= Seq::<facade::ProcRow>::empty());
    }
    while i < ps.len()
        invariant
            i <= ps@.len(),
            out@.len() == count_matches(ps@.take(i as int), name@),
            forall|j: int| 0 <= j < out@.len() ==> kill_line_ok(#[trigger] out@[j]@),
        decreases ps@.len() - i,
    {
        proof {
            assert(ps@.take(i + 1).drop_last() =~= ps@.take(i as int));
            assert(ps@.take(i + 1).last() == ps@[i as int]);
        }
        let p = &ps[i];
        if str_is(&p.name, name.as_str()) {
            if p.pid <= 0x7fffffff {
                out.push(kill_report(p.pid as i32));
            } else {
                let oversized: Result<(), String> = Err(String::from_str("pid out of range"));
                out.push(kill_report_line(&oversized));
            }
        }
        i += 1;
    }
    proof {
        assert(ps@.take(ps@.len() as int) =~= ps@);
    }
    out
}

/// LAW: a kill-by-name request that matches no process name has no target:
/// the count of report lines, one per attempted signal, is zero, so nothing
/// is signalled and nothing is written.
pub proof fn lemma_kill_no_match(ps: Seq<facade::ProcRow>, name: Seq<char>)
    requires
        forall|i: int| 0 <= i < ps.len() ==> (#[trigger] ps[i]).name@ != name,
    ensures
        count_matches(ps, name) == 0,
    decreases ps.len(),
{
    if ps.len() > 0 {
        assert(ps.last() == ps[ps.len() - 1]);
        assert forall|i: int| 0 <= i < ps.drop_last().len() implies (#[trigger] ps.drop_last()[
            i
        ]).name@ != name by {
            assert(ps.drop_last()[i] == ps[i]);
        }
        lemma_kill_no_match(ps.drop_last(), name);
    }
}

/// The line shown for a malformed pid argument.
pub open spec fn bad_pid_line() -> Seq<char> {
    "Error: not a valid pid"@
}

/// Everything one dispatch step guarantees, as a function of the submitted
/// line: the audit log grows by the line; the commands that need no outside
/// reading have their output pinned exactly; each snapshot command's output
/// is the verified rendering of some snapshot the facade returned, or the
/// fixed error line where the facade failed; paging is on only after the
/// process table, and the only outgoing action is the spawn the line asked
/// for.
pub open spec fn dispatch_post(pre: App, post: App, line: Seq<char>, eff: Effect) -> bool {
    let toks = split_blanks(line);
    &&& post.mode == pre.mode
    &&& views_of(post.messages@) == views_of(pre.messages@).push(line)
    &&& paging_ok(post)
    &&& !(eff is Quit)
    &&& (toks.len() == 0 ==> post.output@.len() == 0 && !post.scroll_enabled && eff is Continue)
    &&& ((toks.len() > 0 && !known_command(toks[0])) ==> views_of(post.output@) == seq![
        not_found_line(),
    ])
    &&& ((toks.len() > 0 && toks[0] == "help"@) ==> views_of(post.output@) == help_texts())
    &&& ((toks.len() > 0 && toks[0] == "clear"@) ==> post.output@.len() == 0)
    &&& ((toks.len() > 0 && (toks[0] == "uname"@ || toks[0] == "release"@ || toks[0]
        == "hostname"@)) ==> post.output@.len() == 1)
    &&& ((toks.len() > 0 && toks[0] == "sysinfo"@) ==> ((exists|
        n: Seq<char>,
        k: Seq<char>,
        o: Seq<char>,
        h: Seq<char>,
    | views_of(post.output@) == ident_lines_of(n, k, o, h)) || views_of(post.output@) == seq![
        facade_error_line(),
    ]))
    &&& ((toks.len() > 0 && toks[0] == "sensors"@) ==> exists|cs: Seq<facade::SensorReading>|
        views_of(post.output@) == sensor_rows_of(cs))
    &&& ((toks.len() > 0 && toks[0] == "df"@) ==> exists|ds: Seq<facade::DiskRow>| views_of(
        post.output@,
    ) == df_table_of(ds, df_divisor(toks)))
    &&& ((toks.len() > 0 && toks[0] == "lscpu"@) ==> exists|cs: Seq<facade::CpuRow>| views_of(
        post.output@,
    ) == cpu_table_of(cs))
    &&& ((toks.len() > 0 && toks[0] == "hddtemp"@) ==> {
        &&& (toks.len() == 1 ==> exists|cs: Seq<facade::SensorReading>| views_of(post.output@)
            == storage_temp_rows(cs, TempKind::Current))
        &&& ((toks.len() == 2 && toks[1] == "max"@) ==> exists|cs: Seq<facade::SensorReading>|
            views_of(post.output@) == storage_temp_rows(cs, TempKind::Highest))
        &&& ((toks.len() == 2 && toks[1] == "crit"@) ==> exists|cs: Seq<facade::SensorReading>|
            views_of(post.output@) == storage_temp_rows(cs, TempKind::Critical))
        &&& ((toks.len() == 2 && toks[1] != "max"@ && toks[1] != "crit"@) ==> post.output@.len()
            == 0)
        &&& (toks.len() > 2 ==> post.output@.len() == 0)
    })
    &&& ((toks.len() > 0 && toks[0] == "gputemp"@) ==> {
        &&& (toks.len() == 1 ==> exists|cs: Seq<facade::SensorReading>| views_of(post.output@)
            == gpu_temp_rows(cs, TempKind::Current))
        &&& ((toks.len() == 2 && toks[1] == "max"@) ==> exists|cs: Seq<facade::SensorReading>|
            views_of(post.output@) == gpu_temp_rows(cs, TempKind::Highest))
        &&& ((toks.len() == 2 && toks[1] != "max"@) ==> post.output@.len() == 0)
        &&& (toks.len() > 2 ==> post.output@.len() == 0)
    })
    &&& ((toks.len() > 0 && toks[0] == "network"@) ==> exists|ns: Seq<facade::NetRow>| views_of(
        post.output@,
    ) == net_rows_of(ns))
    &&& ((toks.len() > 0 && toks[0] == "memory"@) ==> post.output@.len() == 3)
    &&& ((toks.len() > 0 && toks[0] == "ptable"@) ==> {
        ||| {
            &&& post.scroll_enabled
            &&& post.history@.len() == 0
            &&& post.output@.len() == 1 + post.total_rows
            &&& views_of(post.output@)[0] == proc_header()
            &&& exists|ps: Seq<facade::ProcRow>| views_of(post.output@) == ptable_of(ps)
        }
        ||| {
            &&& !post.scroll_enabled
            &&& views_of(post.output@) == seq![facade_error_line()]
            &&& post.history == pre.history
        }
    })
    &&& ((toks.len() > 0 && toks[0] == "desc"@) ==> {
        &&& !post.scroll_enabled
        &&& ((exists|ps: Seq<facade::ProcRow>| views_of(post.output@) == desc_table_of(ps))
            || views_of(post.output@) == seq![facade_error_line()])
    })
    &&& (!(toks.len() > 0 && toks[0] == "ptable"@) ==> !post.scroll_enabled && post.history
        == pre.history)
    &&& ((toks.len() > 0 && toks[0] == "ignite"@) ==> {
        &&& post.output@.len() == 0
        &&& (toks.len() == 2 ==> eff is Spawn)
        &&& (toks.len() != 2 ==> eff is Continue)
    })
    &&& (eff is Spawn ==> toks.len() == 2 && toks[0] == "ignite"@ && eff->0@ == toks[1])
    &&& ((toks.len() == 2 && toks[0] == "kill"@) ==> {
        &&& ((is_int_token(toks[1]) && i32::MIN <= int_token_val(toks[1]) <= i32::MAX)
            ==> post.output@.len() == 1 && kill_line_ok(views_of(post.output@)[0]))
        &&& (!(is_int_token(toks[1]) && i32::MIN <= int_token_val(toks[1]) <= i32::MAX) ==> {
            ||| {
                &&& exists|ps: Seq<facade::ProcRow>| post.output@.len() == count_matches(
                    ps,
                    toks[1],
                )
                &&& forall|i: int| 0 <= i < post.output@.len() ==> kill_line_ok(
                    #[trigger] views_of(post.output@)[i],
                )
            }
            ||| views_of(post.output@) == seq![facade_error_line()]
        })
    })
    &&& ((toks.len() == 2 && toks[0] == "find"@) ==> {
        &&& ((is_int_token(toks[1]) && i32::MIN <= int_token_val(toks[1]) <= i32::MAX) ==> exists|
            p: Option<facade::ProcRow>,
        | views_of(post.output@) == find_report_of(int_token_val(toks[1]), p))
        &&& (!(is_int_token(toks[1]) && i32::MIN <= int_token_val(toks[1]) <= i32::MAX)
            ==> views_of(post.output@) == seq![bad_pid_line()])
    })
    &&& ((toks.len() != 2 && toks.len() > 0 && (toks[0] == "kill"@ || toks[0] == "find"@))
        ==> post.output@.len() == 0)
}

impl App {
    /// Routes one submitted line: splits it into words, records it in the
    /// audit log, replaces the displayed output with the command's result,
    /// and turns paging off unless the process table ran. An empty line is a
    /// no-op; an unknown name yields exactly one line saying so; a facade
    /// failure becomes the fixed error line; a spawn request is handed back
    /// as an effect for the surrounding program.
    #[verifier::rlimit(100)]
    pub fn dispatch(&mut self, line: &String) -> (eff: Effect)
        ensures
            final(self).input == old(self).input,
            final(self).messages@ == old(self).messages@.push(*line),
            dispatch_post(*old(self), *final(self), line@, eff),
    {
        proof {
            reveal_strlit("uname");
            reveal_strlit("release");
            reveal_strlit("hostname");
            reveal_strlit("sysinfo");
            reveal_strlit("sensors");
            reveal_strlit("df");
            reveal_strlit("hddtemp");
            reveal_strlit("lscpu");
            reveal_strlit("gputemp");
            reveal_strlit("kill");
            reveal_strlit("ignite");
            reveal_strlit("ptable");
            reveal_strlit("clear");
            reveal_strlit("help");
            reveal_strlit("find");
            reveal_strlit("network");
            reveal_strlit("memory");
            reveal_strlit("desc");
            reveal_strlit("max");
            reveal_strlit("crit");
            assert("max"@.len() == 3 && "crit"@.len() == 4);
            assert("kill"@[0] == 'k' && "help"@[0] == 'h' && "find"@[0] == 'f');
            assert("desc"@[0] == 'd' && "uname"@[0] == 'u' && "clear"@[0] == 'c');
            assert("lscpu"@[0] == 'l' && "ignite"@[0] == 'i' && "ptable"@[0] == 'p');
            assert("memory"@[0] == 'm' && "release"@[0] == 'r' && "hddtemp"@[0] == 'h');
            assert("gputemp"@[0] == 'g' && "network"@[0] == 'n' && "df"@[0] == 'd');
            assert("sysinfo"@[0] == 's' && "sensors"@[0] == 's' && "hostname"@[0] == 'h');
            assert("kill"@[1] == 'i' && "help"@[1] == 'e' && "find"@[1] == 'i');
            assert("desc"@[1] == 'e' && "uname"@[1] == 'n' && "clear"@[1] == 'l');
            assert("lscpu"@[1] == 's' && "ignite"@[1] == 'g' && "ptable"@[1] == 't');
            assert("memory"@[1] == 'e' && "release"@[1] == 'e' && "hddtemp"@[1] == 'd');
            assert("gputemp"@[1] == 'p' && "network"@[1] == 'e' && "df"@[1] == 'f');
            assert("sysinfo"@[1] == 'y' && "sensors"@[1] == 'e' && "hostname"@[1] == 'o');
            assert("uname"@.len() == 5 && "release"@.len() == 7 && "hostname"@.len() == 8);
            assert("sysinfo"@.len() == 7 && "sensors"@.len() == 7 && "df"@.len() == 2);
            assert("hddtemp"@.len() == 7 && "lscpu"@.len() == 5 && "gputemp"@.len() == 7);
            assert("kill"@.len() == 4 && "ignite"@.len() == 6 && "ptable"@.len() == 6);
            assert("clear"@.len() == 5 && "help"@.len() == 4 && "find"@.len() == 4);
            assert("network"@.len() == 7 && "memory"@.len() == 6 && "desc"@.len() == 4);
        }
        let toks = tokenize(line.as_str());
        self.output = Vec::new();
        self.scroll_enabled = false;
        let ghost pre_msgs = self.messages@;
        self.messages.push(line.clone());
        proof {
            lemma_views_of_push(pre_msgs, self.messages@[self.messages@.len() - 1]);
            assert(views_of(self.messages@) == views_of(pre_msgs).push(line@));
            assert(views_of(toks@) == split_blanks(line@));
        }
        if toks.len() == 0 {
            return Effect::Continue;
        }
        proof {
            assert(toks@[0]@ == split_blanks(line@)[0]);
            if toks@.len() == 2 {
                assert(toks@[1]@ == split_blanks(line@)[1]);
            }
        }
        let name = &toks[0];
        if str_is(name, "uname") {
            self.output = one_or_err(facade::kernel_version());
            Effect::Continue
        } else if str_is(name, "release") {
            self.output = one_or_err(facade::os_version());
            Effect::Continue
        } else if str_is(name, "hostname") {
            self.output = one_or_err(facade::host_name());
            Effect::Continue
        } else if str_is(name, "sysinfo") {
            let sn = facade::system_name();
            let kv = facade::kernel_version();
            let ov = facade::os_version();
            let hn = facade::host_name();
            match (sn, kv, ov, hn) {
                (Some(sn), Some(kv), Some(ov), Some(hn)) => {
                    self.output = ident_lines(&sn, &kv, &ov, &hn);
                    proof {
                        assert(views_of(self.output@).len() == self.output@.len());
                        assert(views_of(self.output@) == ident_lines_of(sn@, kv@, ov@, hn@));
                    }
                },
                _ => {
                    self.output = one_or_err(None);
                    proof {
                        assert(views_of(self.output@) =~= seq![facade_error_line()]);
                    }
                },
            }
            Effect::Continue
        } else if str_is(name, "sensors") {
            let cs = facade::sensors_snapshot();
            self.output = sensor_lines(&cs);
            proof {
                assert(views_of(self.output@) == sensor_rows_of(cs@));
            }
            Effect::Continue
        } else if str_is(name, "df") {
            let divisor: u64 = df_divisor_exec(&toks);
            let ds = facade::disks_snapshot();
            self.output = df_lines(&ds, divisor);
            proof {
                assert(views_of(self.output@).len() == self.output@.len());
                assert(views_of(self.output@) == df_table_of(ds@, df_divisor(split_blanks(line@))));
            }
            Effect::Continue
        } else if str_is(name, "hddtemp") {
            let cs = facade::sensors_snapshot();
            if toks.len() == 1 {
                self.output = hddtemp_lines(&cs, TempKind::Current);
                proof {
                    assert(views_of(self.output@) == storage_temp_rows(cs@, TempKind::Current));
                }
            } else if toks.len() == 2 && str_is(&toks[1], "max") {
                self.output = hddtemp_lines(&cs, TempKind::Highest);
                proof {
                    assert(views_of(self.output@) == storage_temp_rows(cs@, TempKind::Highest));
                }
            } else if toks.len() == 2 && str_is(&toks[1], "crit") {
                self.output = hddtemp_lines(&cs, TempKind::Critical);
                proof {
                    assert(views_of(self.output@) == storage_temp_rows(cs@, TempKind::Critical));
                }
            }
            Effect::Continue
        } else if str_is(name, "lscpu") {
            let cs = facade::cpus_snapshot();
            self.output = cpu_lines(&cs);
            proof {
                assert(views_of(self.output@).len() == self.output@.len());
                assert(views_of(self.output@) == cpu_table_of(cs@));
            }
            Effect::Continue
        } else if str_is(name, "gputemp") {
            let cs = facade::sensors_snapshot();
            if toks.len() == 1 {
                self.output = gputemp_lines(&cs, TempKind::Current);
                proof {
                    assert(views_of(self.output@) == gpu_temp_rows(cs@, TempKind::Current));
                }
            } else if toks.len() == 2 && str_is(&toks[1], "max") {
                self.output = gputemp_lines(&cs, TempKind::Highest);
                proof {
                    assert(views_of(self.output@) == gpu_temp_rows(cs@, TempKind::Highest));
                }
            }
            Effect::Continue
        } else if str_is(name, "kill") {
            if toks.len() == 2 {
                match parse_i32(toks[1].as_str()) {
                    Some(pid) => {
                        let mut out: Vec<String> = Vec::new();
                        out.push(kill_report(pid));
                        self.output = out;
                        proof {
                            assert(views_of(self.output@)[0] == self.output@[0]@);
                        }
                    },
                    None => {
                        match facade::processes_snapshot() {
                            Some(ps) => {
                                self.output = kill_by_name_lines(&ps, &toks[1]);
                                proof {
                                    assert(self.output@.len() == count_matches(
                                        ps@,
                                        split_blanks(line@)[1],
                                    ));
                                    assert(forall|i: int| 0 <= i < self.output@.len()
                                        ==> kill_line_ok(
                                        #[trigger] views_of(self.output@)[i],
                                    ));
                                }
                            },
                            None => {
                                self.output = one_or_err(None);
                                proof {
                                    assert(views_of(self.output@) =~= seq![facade_error_line()]);
                                }
                            },
                        }
                    },
                }
            }
            Effect::Continue
        } else if str_is(name, "ignite") {
            if toks.len() == 2 {
                Effect::Spawn(toks[1].clone())
            } else {
                Effect::Continue
            }
        } else if str_is(name, "ptable") {
            match facade::processes_snapshot() {
                Some(ps) => {
                    let (lines, _count) = ptable_lines(&ps);
                    proof {
                        assert(views_of(lines@)[0] == proc_header());
                        assert(views_of(lines@).len() == lines@.len());
                    }
                    self.show_table(lines);
                    proof {
                        assert(views_of(self.output@) == ptable_of(ps@));
                    }
                },
                None => {
                    self.output = one_or_err(None);
                    proof {
                        assert(views_of(self.output@) =~= seq![facade_error_line()]);
                    }
                },
            }
            Effect::Continue
        } else if str_is(name, "clear") {
            self.output = Vec::new();
            Effect::Continue
        } else if str_is(name, "help") {
            self.output = help_lines();
            Effect::Continue
        } else if str_is(name, "find") {
            if toks.len() == 2 {
                self.output = find_lines(&toks[1]);
            }
            Effect::Continue
        } else if str_is(name, "network") {
            let ns = facade::networks_snapshot();
            self.output = network_lines(&ns);
            proof {
                assert(views_of(self.output@) == net_rows_of(ns@));
            }
            Effect::Continue
        } else if str_is(name, "memory") {
            let m = facade::memory_snapshot();
            let total_s = facade::human_bytes(m.total);
            let used_s = facade::human_bytes(m.used);
            let free_s = facade::human_bytes(m.free);
            self.output = memory_lines(&m, &total_s, &used_s, &free_s);
            proof {
                assert(views_of(self.output@).len() == self.output@.len());
            }
            Effect::Continue
        } else if str_is(name, "desc") {
            match facade::processes_snapshot() {
                Some(ps) => {
                    self.output = desc_lines(&ps);
                    proof {
                        assert(views_of(self.output@).len() == self.output@.len());
                        assert(views_of(self.output@) == desc_table_of(ps@));
                    }
                },
                None => {
                    self.output = one_or_err(None);
                    proof {
                        assert(views_of(self.output@) =~= seq![facade_error_line()]);
                    }
                },
            }
            Effect::Continue
        } else {
            let mut out: Vec<String> = Vec::new();
            out.push(String::from_str("command not found"));
            self.output = out;
            proof {
                assert(views_of(self.output@) =~= seq![not_found_line()]);
            }
            Effect::Continue
        }
    }
}

/// The lines one pid lookup shows, for each possible outcome.
pub open spec fn find_report_of(pid: int, p: Option<facade::ProcRow>) -> Seq<Seq<char>> {
    match p {
        None => seq!["Process not found with PID "@ + crate::text::dec_int_of(pid)],
        Some(q) => seq![
            "Process with PID "@ + crate::text::dec_int_of(pid) + " found!: "@ + q.name@,
            proc_header(),
        ] + (match q.cmdline {
            Some(cmd) => seq![
                crate::render::row4_of(
                    crate::text::dec_of(q.pid as nat),
                    q.cpu_pct@,
                    q.mem_pct@,
                    cmd@,
                    30,
                ),
            ],
            None => Seq::empty(),
        }),
    }
}

/// The report of one pid lookup, for each possible outcome: the found
/// process' name and a one-row table (the row only when it has a command
/// line), or a not-found message naming the pid.
pub fn find_report(pid: i32, p: &Option<facade::ProcRow>) -> (r: Vec<String>)
    ensures
        views_of(r@) == find_report_of(pid as int, *p),
        1 <= r@.len() <= 3,
{
    let mut out: Vec<String> = Vec::new();
    let pid_s = crate::text::i32_str(pid);
    match p {
        Some(q) => {
            let ghost g0 = out@;
            out.push(
                crate::render::line4("Process with PID ", pid_s.as_str(), " found!: ", q.name.as_str()),
            );
            let ghost g1 = out@;
            out.push(crate::render::row4("PID", "%CPU", "%MEM", "COMMAND", 30));
            let ghost g2 = out@;
            proof {
                lemma_views_of_push(g0, out@[0]);
                lemma_views_of_push(g1, out@[1]);
            }
            match &q.cmdline {
                Some(cmd) => {
                    let row_pid = u64_str(q.pid as u64);
                    out.push(
                        crate::render::row4(
                            row_pid.as_str(),
                            q.cpu_pct.as_str(),
                            q.mem_pct.as_str(),
                            cmd.as_str(),
                            30,
                        ),
                    );
                    proof {
                        lemma_views_of_push(g2, out@[2]);
                        assert(views_of(out@) =~= find_report_of(pid as int, *p));
                    }
                },
                None => {
                    proof {
                        assert(views_of(out@) =~= find_report_of(pid as int, *p));
                    }
                },
            }
        },
        None => {
            let ghost pre = out@;
            out.push(crate::render::line2("Process not found with PID ", pid_s.as_str()));
            proof {
                lemma_views_of_push(pre, out@[0]);
                assert(views_of(out@) =~= find_report_of(pid as int, *p));
            }
        },
    }
    proof {
        assert(views_of(out@).len() == out@.len());
    }
    out
}

/// The lines of a pid lookup: the found process' name and a one-row table,
/// or a not-found message, or a complaint about a malformed pid.
fn find_lines(arg: &String) -> (r: Vec<String>)
    ensures
        1 <= r@.len() <= 3,
        (is_int_token(arg@) && i32::MIN <= int_token_val(arg@) <= i32::MAX) ==> exists|p: Option<
            facade::ProcRow,
        >| views_of(r@) == find_report_of(int_token_val(arg@), p),
        !(is_int_token(arg@) && i32::MIN <= int_token_val(arg@) <= i32::MAX) ==> views_of(r@)
            == seq!["Error: not a valid pid"@],
{
    match parse_i32(arg.as_str()) {
        Some(pid) => {
            let p = facade::findbypid(pid);
            let r = find_report(pid, &p);
            proof {
                assert(views_of(r@) == find_report_of(int_token_val(arg@), p));
            }
            r
        },
        None => {
            let mut out: Vec<String> = Vec::new();
            let ghost pre = out@;
            out.push(String::from_str("Error: not a valid pid"));
            proof {
                lemma_views_of_push(pre, out@[0]);
                assert(views_of(out@) =~= seq!["Error: not a valid pid"@]);
            }
            out
        },
    }
}

/// The line shown when a requested program could not be started.
pub open spec fn spawn_error_line() -> Seq<char> {
    "Error: could not start process"@
}

impl App {
    /// Records that a requested spawn failed: one error line is appended to
    /// the displayed output, nothing else moves.
    pub fn note_spawn_failure(&mut self)
        ensures
            views_of(final(self).output@) == views_of(old(self).output@).push(spawn_error_line()),
            final(self).mode == old(self).mode,
            final(self).input == old(self).input,
            final(self).messages == old(self).messages,
            final(self).scroll_enabled == old(self).scroll_enabled,
            final(self).total_rows == old(self).total_rows,
            final(self).history == old(self).history,
    {
        let ghost pre = self.output@;
        self.output.push(String::from_str("Error: could not start process"));
        proof {
            lemma_views_of_push(pre, self.output@[self.output@.len() - 1]);
        }
    }
}

/// The divisor the disk listing scales by, from the submitted words.
pub fn df_divisor_exec(toks: &Vec<String>) -> (r: u64)
    ensures
        r as int == df_divisor(views_of(toks@)),
        r >= 1,
{
    if toks.len() == 2 {
        proof {
            assert(views_of(toks@)[1] == toks@[1]@);
        }
        let unit = strip_first(&toks[1]);
        if str_is(&unit, "k") {
            1024
        } else if str_is(&unit, "m") {
            1048576
        } else {
            1
        }
    } else {
        1
    }
}

/// LAW: the KiB and MiB selectors scale the same byte counters by 2^10 and
/// 2^20, and a plain `df` leaves them raw: these are the divisors the disk
/// listing divides every total by.
pub proof fn lemma_df_unit_scaling()
    ensures
        df_divisor(seq!["df"@, "-k"@]) == 0x400,
        df_divisor(seq!["df"@, "-m"@]) == 0x100000,
        df_divisor(seq!["df"@]) == 1,
{
    reveal_strlit("-k");
    reveal_strlit("-m");
    reveal_strlit("k");
    reveal_strlit("m");
    assert("-k"@.skip(1) =~= "k"@);
    assert("-m"@.skip(1) =~= "m"@);
    assert("k"@[0] == 'k' && "m"@[0] == 'm');
}

/// The number of character keys in `ks`.
pub open spec fn count_chars(ks: Seq<Key>) -> nat
    decreases ks.len(),
{
    if ks.len() == 0 {
        0
    } else {
        (if ks[0] is Char {
            1nat
        } else {
            0nat
        }) + count_chars(ks.drop_first())
    }
}

/// The number of backspace keys in `ks`.
pub open spec fn count_backs(ks: Seq<Key>) -> nat
    decreases ks.len(),
{
    if ks.len() == 0 {
        0
    } else {
        (if ks[0] is Backspace {
            1nat
        } else {
            0nat
        }) + count_backs(ks.drop_first())
    }
}

/// The composed line after the editor consumes `ks`, starting from `s`.
pub open spec fn edit_run(s: Seq<char>, ks: Seq<Key>) -> Seq<char>
    decreases ks.len(),
{
    if ks.len() == 0 {
        s
    } else {
        edit_run(edit_step(s, ks[0]), ks.drop_first())
    }
}

proof fn lemma_edit_run_length_gen(s: Seq<char>, ks: Seq<Key>)
    requires
        forall|i: int| 0 <= i < ks.len() ==> (#[trigger] ks[i]) is Char || ks[i] is Backspace,
        forall|i: int|
            0 <= i <= ks.len() ==> s.len() + count_chars(#[trigger] ks.take(i)) >= count_backs(
                ks.take(i),
            ),
    ensures
        edit_run(s, ks).len() == s.len() + count_chars(ks) - count_backs(ks),
    decreases ks.len(),
{
    if ks.len() > 0 {
        let s2 = edit_step(s, ks[0]);
        let dks = ks.drop_first();
        assert(ks.take(1).drop_first() =~= Seq::<Key>::empty());
        assert(ks.take(1)[0] == ks[0]);
        assert(count_chars(Seq::<Key>::empty()) == 0);
        assert(count_backs(Seq::<Key>::empty()) == 0);
        if ks[0] is Backspace {
            assert(s.len() + count_chars(ks.take(1)) >= count_backs(ks.take(1)));
            assert(count_backs(ks.take(1)) == 1);
            assert(s.len() >= 1);
        }
        assert forall|i: int|
            0 <= i <= dks.len() implies s2.len() + count_chars(#[trigger] dks.take(i))
            >= count_backs(dks.take(i)) by {
            assert(ks.take(i + 1).drop_first() =~= dks.take(i));
            assert(ks.take(i + 1)[0] == ks[0]);
            assert(s.len() + count_chars(ks.take(i + 1)) >= count_backs(ks.take(i + 1)));
        }
        assert forall|i: int|
            0 <= i < dks.len() implies (#[trigger] dks[i]) is Char || dks[i] is Backspace by {
            assert(dks[i] == ks[i + 1]);
        }
        lemma_edit_run_length_gen(s2, dks);
    }
}

/// LAW: starting from an empty line, a run of character and backspace keys
/// in which no prefix holds more backspaces than characters leaves the line
/// with exactly (characters - backspaces) entries; `handle_key` performs one
/// `edit_step` per key in Editing mode. A run in which some backspace meets
/// an empty line is excluded: there the backspace is a no-op and the count
/// comes out higher.
pub proof fn lemma_editor_length(ks: Seq<Key>)
    requires
        forall|i: int| 0 <= i < ks.len() ==> (#[trigger] ks[i]) is Char || ks[i] is Backspace,
        forall|i: int|
            0 <= i <= ks.len() ==> count_chars(#[trigger] ks.take(i)) >= count_backs(ks.take(i)),
    ensures
        edit_run(Seq::empty(), ks).len() == count_chars(ks) - count_backs(ks),
{
    lemma_edit_run_length_gen(Seq::empty(), ks);
}

impl App {
    /// Routes one key event by the current mode: in Normal mode `e` enters
    /// Editing and `q` asks the surrounding program to stop; in Editing mode
    /// character keys and backspace edit the line, Enter submits it to the
    /// dispatcher, Esc leaves Editing, and the arrow keys page the table.
    pub fn handle_key(&mut self, k: Key) -> (eff: Effect)
        ensures
            paging_ok(*old(self)) ==> paging_ok(*final(self)),
            old(self).mode is Normal ==> {
                &&& (k == Key::Char('e') || k == Key::Char('E')) ==> final(self).mode
                    is Editing && final(self).input == old(self).input && final(self).output == old(self).output && final(self).messages == old(self).messages && final(self).history
                    == old(self).history && final(self).scroll_enabled == old(self).scroll_enabled
                    && final(self).total_rows == old(self).total_rows && eff is Continue
                &&& (k == Key::Char('q') || k == Key::Char('Q')) ==> eff is Quit && *final(self)
                    == *old(self)
                &&& !(k == Key::Char('e') || k == Key::Char('E') || k == Key::Char('q') || k
                    == Key::Char('Q')) ==> *final(self) == *old(self) && eff is Continue
            },
            old(self).mode is Editing ==> {
                &&& (k is Char || k is Backspace) ==> final(self).input@ == edit_step(
                    old(self).input@,
                    k,
                ) && final(self).mode == old(self).mode && final(self).output == old(self).output
                    && final(self).messages == old(self).messages && final(self).history == old(self).history && final(self).scroll_enabled == old(self).scroll_enabled && final(self).total_rows == old(self).total_rows && eff is Continue
                &&& k is Esc ==> final(self).mode is Normal && final(self).input == old(self).input
                    && final(self).output == old(self).output && final(self).messages == old(self).messages && final(self).history == old(self).history && final(self).scroll_enabled == old(self).scroll_enabled && final(self).total_rows == old(self).total_rows && eff is Continue
                &&& k is Other ==> *final(self) == *old(self) && eff is Continue
                &&& k is Enter ==> final(self).input@ == Seq::<char>::empty() && dispatch_post(
                    *old(self),
                    *final(self),
                    old(self).input@,
                    eff,
                )
                &&& k is Down ==> page_down_post(*old(self), *final(self)) && eff is Continue
                &&& k is Up ==> page_up_post(*old(self), *final(self)) && eff is Continue
            },
    {
        match self.mode {
            Mode::Normal => {
                match k {
                    Key::Char(c) => {
                        if c == 'e' || c == 'E' {
                            self.mode = Mode::Editing;
                            Effect::Continue
                        } else if c == 'q' || c == 'Q' {
                            Effect::Quit
                        } else {
                            Effect::Continue
                        }
                    },
                    _ => Effect::Continue,
                }
            },
            Mode::Editing => {
                match k {
                    Key::Char(c) => {
                        crate::text::push_char(&mut self.input, c);
                        Effect::Continue
                    },
                    Key::Backspace => {
                        let popped = crate::text::pop_char(&mut self.input);
                        match popped {
                            Some(_) => Effect::Continue,
                            None => Effect::Continue,
                        }
                    },
                    Key::Esc => {
                        self.mode = Mode::Normal;
                        Effect::Continue
                    },
                    Key::Enter => {
                        let line = self.input.clone();
                        self.input = String::new();
                        let ghost mid = *self;
                        let eff = self.dispatch(&line);
                        proof {
                            assert(dispatch_post(mid, *self, old(self).input@, eff));
                            assert(views_of(mid.messages@) == views_of(old(self).messages@));
                            assert(mid.history == old(self).history);
                            assert(dispatch_post(*old(self), *self, old(self).input@, eff));
                        }
                        eff
                    },
                    Key::Up => {
                        self.page_up();
                        Effect::Continue
                    },
                    Key::Down => {
                        self.page_down();
                        Effect::Continue
                    },
                    Key::Other => Effect::Continue,
                }
            },
        }
    }
}

} // verus!
