//! Turns facade readings into display lines. Every function here is
//! verified: its contract pins each produced line down to the character,
//! as a function of the readings it was handed.
use vstd::prelude::*;

use crate::facade::{CpuRow, DiskRow, MemCounters, NetRow, ProcRow, SensorReading};
use crate::text::{
    dec_of, has_sub, lemma_views_of_push, pad, pad_to, u64_str, views_of, contains_sub,
};
use crate::facade::pretty_bytes_of;

verus! {

/// Four values, each left-aligned in a column of width `w`, one space between
/// columns.
pub open spec fn row4_of(a: Seq<char>, b: Seq<char>, c: Seq<char>, d: Seq<char>, w: nat) -> Seq<
    char,
> {
    pad_to(a, w) + seq![' '] + pad_to(b, w) + seq![' '] + pad_to(c, w) + seq![' '] + pad_to(d, w)
}

/// Six values in columns of width `w`.
pub open spec fn row6_of(
    a: Seq<char>,
    b: Seq<char>,
    c: Seq<char>,
    d: Seq<char>,
    e: Seq<char>,
    f: Seq<char>,
    w: nat,
) -> Seq<char> {
    pad_to(a, w) + seq![' '] + pad_to(b, w) + seq![' '] + pad_to(c, w) + seq![' '] + pad_to(d, w)
        + seq![' '] + pad_to(e, w) + seq![' '] + pad_to(f, w)
}

/// Builds a four-column row.
pub fn row4(a: &str, b: &str, c: &str, d: &str, w: usize) -> (r: String)
    ensures
        r@ == row4_of(a@, b@, c@, d@, w as nat),
{
    let mut r = pad(a, w);
    r.append(" ");
    let pb = pad(b, w);
    r.append(pb.as_str());
    r.append(" ");
    let pc = pad(c, w);
    r.append(pc.as_str());
    r.append(" ");
    let pd = pad(d, w);
    r.append(pd.as_str());
    proof {
        reveal_strlit(" ");
        assert(" "@ =~= seq![' ']);
        assert(r@ =~= row4_of(a@, b@, c@, d@, w as nat));
    }
    r
}

/// Builds a six-column row.
pub fn row6(a: &str, b: &str, c: &str, d: &str, e: &str, f: &str, w: usize) -> (r: String)
    ensures
        r@ == row6_of(a@, b@, c@, d@, e@, f@, w as nat),
{
    let mut r = pad(a, w);
    r.append(" ");
    let pb = pad(b, w);
    r.append(pb.as_str());
    r.append(" ");
    let pc = pad(c, w);
    r.append(pc.as_str());
    r.append(" ");
    let pd = pad(d, w);
    r.append(pd.as_str());
    r.append(" ");
    let pe = pad(e, w);
    r.append(pe.as_str());
    r.append(" ");
    let pf = pad(f, w);
    r.append(pf.as_str());
    proof {
        reveal_strlit(" ");
        assert(" "@ =~= seq![' ']);
        assert(r@ =~= row6_of(a@, b@, c@, d@, e@, f@, w as nat));
    }
    r
}

/// The whole process table: header, then the rows in enumeration order.
pub open spec fn ptable_of(ps: Seq<ProcRow>) -> Seq<Seq<char>> {
    seq![proc_header()] + ptable_rows(ps)
}

/// The whole process table in reverse enumeration order.
pub open spec fn desc_table_of(ps: Seq<ProcRow>) -> Seq<Seq<char>> {
    seq![proc_header()] + desc_rows(ps)
}

/// The whole sensor listing.
pub open spec fn sensor_rows_of(cs: Seq<SensorReading>) -> Seq<Seq<char>> {
    cs.map_values(|s: SensorReading| reading_line(s.label@, s.temp@))
}

/// The whole network listing.
pub open spec fn net_rows_of(ns: Seq<NetRow>) -> Seq<Seq<char>> {
    ns.map_values(|n: NetRow| net_line(n))
}

/// The whole CPU table.
pub open spec fn cpu_table_of(cs: Seq<CpuRow>) -> Seq<Seq<char>> {
    seq![cpu_header()] + cs.map_values(|c: CpuRow| cpu_line(c))
}

/// The whole disk table, scaled by `div`.
pub open spec fn df_table_of(ds: Seq<DiskRow>, div: int) -> Seq<Seq<char>> {
    seq![df_header()] + ds.map_values(|d: DiskRow| df_line(d, div))
}

/// The header of the process table.
pub open spec fn proc_header() -> Seq<char> {
    row4_of("PID"@, "%CPU"@, "%MEM"@, "COMMAND"@, 30)
}

/// A process has a non-empty command line.
pub open spec fn has_cmd(p: ProcRow) -> bool {
    p.cmdline is Some
}

/// The display row of one process: pid, cpu share, memory share, name.
pub open spec fn proc_line(p: ProcRow) -> Seq<char> {
    row4_of(dec_of(p.pid as nat), p.cpu_pct@, p.mem_pct@, p.name@, 30)
}

/// The data rows of the process table: one per process with a command line,
/// in enumeration order.
pub open spec fn ptable_rows(ps: Seq<ProcRow>) -> Seq<Seq<char>>
    decreases ps.len(),
{
    if ps.len() == 0 {
        Seq::empty()
    } else {
        ptable_rows(ps.drop_last()) + (if has_cmd(ps.last()) {
            seq![proc_line(ps.last())]
        } else {
            Seq::empty()
        })
    }
}

/// The same rows in reverse enumeration order.
pub open spec fn desc_rows(ps: Seq<ProcRow>) -> Seq<Seq<char>>
    decreases ps.len(),
{
    if ps.len() == 0 {
        Seq::empty()
    } else {
        (if has_cmd(ps.last()) {
            seq![proc_line(ps.last())]
        } else {
            Seq::empty()
        }) + desc_rows(ps.drop_last())
    }
}

fn proc_line_exec(p: &ProcRow) -> (r: String)
    ensures
        r@ == proc_line(*p),
{
    let pid_s = u64_str(p.pid as u64);
    row4(pid_s.as_str(), p.cpu_pct.as_str(), p.mem_pct.as_str(), p.name.as_str(), 30)
}

/// The process table: header, then one row per process with a command line;
/// also returns the number of data rows.
pub fn ptable_lines(ps: &Vec<ProcRow>) -> (r: (Vec<String>, usize))
    ensures
        views_of(r.0@) == ptable_of(ps@),
        r.0@.len() == 1 + r.1,
{
    let mut out: Vec<String> = Vec::new();
    out.push(row4("PID", "%CPU", "%MEM", "COMMAND", 30));
    let mut count: usize = 0;
    let mut i: usize = 0;
    proof {
        lemma_views_of_push(Seq::empty(), out@[0]);
        assert(views_of(Seq::empty()).push(out@[0]@) =~= seq![proc_header()]);
        assert(ptable_rows(ps@.take(0)) =~= Seq::<Seq<char>>::empty());
        assert(views_of(out@) =~= seq![proc_header()] + ptable_rows(ps@.take(0)));
    }
    while i < ps.len()
        invariant
            i <= ps@.len(),
            out@.len() == 1 + count,
            count <= i,
            views_of(out@) == seq![proc_header()] + ptable_rows(ps@.take(i as int)),
        decreases ps@.len() - i,
    {
        proof {
            assert(ps@.take(i + 1).drop_last() =~= ps@.take(i as int));
            assert(ps@.take(i + 1).last() == ps@[i as int]);
        }
        let ghost pre = out@;
        if p_has_cmd(&ps[i]) {
            let line = proc_line_exec(&ps[i]);
            out.push(line);
            count += 1;
            proof {
                lemma_views_of_push(pre, out@[out@.len() - 1]);
                assert(views_of(out@) =~= seq![proc_header()] + ptable_rows(ps@.take(i + 1)));
            }
        } else {
            proof {
                assert(ptable_rows(ps@.take(i + 1)) + Seq::<Seq<char>>::empty() =~= ptable_rows(
                    ps@.take(i + 1),
                ));
                assert(views_of(out@) =~= seq![proc_header()] + ptable_rows(ps@.take(i + 1)));
            }
        }
        i += 1;
    }
    proof {
        assert(ps@.take(ps@.len() as int) =~= ps@);
        assert(views_of(out@) =~= ptable_of(ps@));
    }
    (out, count)
}

fn p_has_cmd(p: &ProcRow) -> (r: bool)
    ensures
        r == has_cmd(*p),
{
    match &p.cmdline {
        Some(_) => true,
        None => false,
    }
}

/// The process table in reverse enumeration order: header, then the rows
/// from the last process back to the first.
pub fn desc_lines(ps: &Vec<ProcRow>) -> (r: Vec<String>)
    ensures
        views_of(r@) == desc_table_of(ps@),
{
    let mut out: Vec<String> = Vec::new();
    out.push(row4("PID", "%CPU", "%MEM", "COMMAND", 30));
    let mut i: usize = ps.len();
    proof {
        lemma_views_of_push(Seq::empty(), out@[0]);
        assert(views_of(out@) =~= seq![proc_header()]);
        assert(ps@.take(ps@.len() as int) =~= ps@);
    }
    while i > 0
        invariant
            i <= ps@.len(),
            views_of(out@) + desc_rows(ps@.take(i as int)) == seq![proc_header()] + desc_rows(ps@),
        decreases i,
    {
        proof {
            assert(ps@.take(i as int).drop_last() =~= ps@.take(i - 1));
            assert(ps@.take(i as int).last() == ps@[i - 1]);
        }
        let ghost pre = out@;
        if p_has_cmd(&ps[i - 1]) {
            let line = proc_line_exec(&ps[i - 1]);
            out.push(line);
            proof {
                lemma_views_of_push(pre, out@[out@.len() - 1]);
                assert(views_of(pre) + (seq![proc_line(ps@[i - 1])] + desc_rows(ps@.take(i - 1)))
                    =~= views_of(out@) + desc_rows(ps@.take(i - 1)));
            }
        } else {
            proof {
                assert(Seq::<Seq<char>>::empty() + desc_rows(ps@.take(i - 1)) =~= desc_rows(
                    ps@.take(i - 1),
                ));
            }
        }
        i -= 1;
    }
    proof {
        assert(ps@.take(0) =~= Seq::<ProcRow>::empty());
        assert(views_of(out@) + Seq::<Seq<char>>::empty() =~= views_of(out@));
        assert(views_of(out@) =~= desc_table_of(ps@));
    }
    out
}

/// Joins two pieces of text.
pub(crate) fn line2(a: &str, b: &str) -> (r: String)
    ensures
        r@ == a@ + b@,
{
    let mut r = String::from_str(a);
    r.append(b);
    r
}

/// Joins four pieces of text.
pub(crate) fn line4(a: &str, b: &str, c: &str, d: &str) -> (r: String)
    ensures
        r@ == a@ + b@ + c@ + d@,
{
    let mut r = String::from_str(a);
    r.append(b);
    r.append(c);
    r.append(d);
    proof {
        assert(r@ =~= a@ + b@ + c@ + d@);
    }
    r
}

/// Joins six pieces of text.
pub(crate) fn line6(a: &str, b: &str, c: &str, d: &str, e: &str, f: &str) -> (r: String)
    ensures
        r@ == a@ + b@ + c@ + d@ + e@ + f@,
{
    let mut r = String::from_str(a);
    r.append(b);
    r.append(c);
    r.append(d);
    r.append(e);
    r.append(f);
    proof {
        assert(r@ =~= a@ + b@ + c@ + d@ + e@ + f@);
    }
    r
}

/// The header of the disk table.
pub open spec fn df_header() -> Seq<char> {
    row6_of(
        "Name"@,
        "Mount Point"@,
        "Filesystem"@,
        "Total Space"@,
        "Available Space"@,
        "Used Space"@,
        50,
    )
}

/// The display row of one disk, its space scaled down by `div`; the used
/// column is the difference of the scaled totals, never below zero.
pub open spec fn df_line(d: DiskRow, div: int) -> Seq<char> {
    let t = d.total as int / div;
    let a = d.avail as int / div;
    let u = if a <= t {
        t - a
    } else {
        0
    };
    row6_of(d.name@, d.mount@, d.fs@, dec_of(t as nat), dec_of(a as nat), dec_of(u as nat), 50)
}

/// The disk table: header, then one row per disk.
pub fn df_lines(ds: &Vec<DiskRow>, divisor: u64) -> (r: Vec<String>)
    requires
        divisor >= 1,
    ensures
        views_of(r@) == df_table_of(ds@, divisor as int),
{
    let ghost f = |d: DiskRow| df_line(d, divisor as int);
    let mut out: Vec<String> = Vec::new();
    out.push(
        row6("Name", "Mount Point", "Filesystem", "Total Space", "Available Space", "Used Space", 50),
    );
    let mut i: usize = 0;
    proof {
        lemma_views_of_push(Seq::empty(), out@[0]);
        assert(views_of(out@) =~= seq![df_header()] + ps_take_map(ds@, f, 0));
    }
    while i < ds.len()
        invariant
            i <= ds@.len(),
            divisor >= 1,
            f == (|d: DiskRow| df_line(d, divisor as int)),
            views_of(out@) == seq![df_header()] + ps_take_map(ds@, f, i as int),
        decreases ds@.len() - i,
    {
        let d = &ds[i];
        let t = d.total / divisor;
        let a = d.avail / divisor;
        let u = if a <= t {
            t - a
        } else {
            0
        };
        let ts = u64_str(t);
        let as_ = u64_str(a);
        let us = u64_str(u);
        let ghost pre = out@;
        let line = row6(
            d.name.as_str(),
            d.mount.as_str(),
            d.fs.as_str(),
            ts.as_str(),
            as_.as_str(),
            us.as_str(),
            50,
        );
        out.push(line);
        i += 1;
        proof {
            lemma_views_of_push(pre, out@[out@.len() - 1]);
            assert(out@[out@.len() - 1]@ == f(ds@[i - 1]));
            assert(ps_take_map(ds@, f, i as int) =~= ps_take_map(ds@, f, i - 1).push(f(ds@[i - 1])));
            assert(views_of(out@) =~= seq![df_header()] + ps_take_map(ds@, f, i as int));
        }
    }
    proof {
        assert(ps_take_map(ds@, f, ds@.len() as int) =~= ds@.map_values(f));
        assert(views_of(out@) =~= df_table_of(ds@, divisor as int));
    }
    out
}

/// The first `i` elements of `s`, mapped.
pub open spec fn ps_take_map<A>(s: Seq<A>, f: spec_fn(A) -> Seq<char>, i: int) -> Seq<Seq<char>> {
    s.take(i).map_values(f)
}

/// The header of the CPU table.
pub open spec fn cpu_header() -> Seq<char> {
    row4_of("Brand"@, "Vendor ID"@, "Name"@, "Frequency"@, 50)
}

/// The display row of one logical CPU.
pub open spec fn cpu_line(c: CpuRow) -> Seq<char> {
    row4_of(c.brand@, c.vendor@, c.name@, dec_of(c.freq as nat), 50)
}

/// The CPU table: header, then one row per logical CPU.
pub fn cpu_lines(cs: &Vec<CpuRow>) -> (r: Vec<String>)
    ensures
        views_of(r@) == cpu_table_of(cs@),
{
    let ghost f = |c: CpuRow| cpu_line(c);
    let mut out: Vec<String> = Vec::new();
    out.push(row4("Brand", "Vendor ID", "Name", "Frequency", 50));
    let mut i: usize = 0;
    proof {
        lemma_views_of_push(Seq::empty(), out@[0]);
        assert(views_of(out@) =~= seq![cpu_header()] + ps_take_map(cs@, f, 0));
    }
    while i < cs.len()
        invariant
            i <= cs@.len(),
            f == (|c: CpuRow| cpu_line(c)),
            views_of(out@) == seq![cpu_header()] + ps_take_map(cs@, f, i as int),
        decreases cs@.len() - i,
    {
        let c = &cs[i];
        let fs = u64_str(c.freq);
        let ghost pre = out@;
        let line = row4(c.brand.as_str(), c.vendor.as_str(), c.name.as_str(), fs.as_str(), 50);
        out.push(line);
        i += 1;
        proof {
            lemma_views_of_push(pre, out@[out@.len() - 1]);
            assert(ps_take_map(cs@, f, i as int) =~= ps_take_map(cs@, f, i - 1).push(f(cs@[i - 1])));
            assert(views_of(out@) =~= seq![cpu_header()] + ps_take_map(cs@, f, i as int));
        }
    }
    proof {
        assert(ps_take_map(cs@, f, cs@.len() as int) =~= cs@.map_values(f));
        assert(views_of(out@) =~= cpu_table_of(cs@));
    }
    out
}

/// One sensor, shown as its label and a reading.
pub open spec fn reading_line(label: Seq<char>, value: Seq<char>) -> Seq<char> {
    label + ": "@ + value + "\u{b0}C"@
}

/// The sensor listing: one line per component with its current temperature.
pub fn sensor_lines(cs: &Vec<SensorReading>) -> (r: Vec<String>)
    ensures
        views_of(r@) == sensor_rows_of(cs@),
{
    let ghost f = |s: SensorReading| reading_line(s.label@, s.temp@);
    let mut out: Vec<String> = Vec::new();
    let mut i: usize = 0;
    proof {
        assert(views_of(out@) =~= ps_take_map(cs@, f, 0));
    }
    while i < cs.len()
        invariant
            i <= cs@.len(),
            f == (|s: SensorReading| reading_line(s.label@, s.temp@)),
            views_of(out@) == ps_take_map(cs@, f, i as int),
        decreases cs@.len() - i,
    {
        let s = &cs[i];
        let ghost pre = out@;
        let line = line4(s.label.as_str(), ": ", s.temp.as_str(), "\u{b0}C");
        out.push(line);
        i += 1;
        proof {
            lemma_views_of_push(pre, out@[out@.len() - 1]);
            assert(ps_take_map(cs@, f, i as int) =~= ps_take_map(cs@, f, i - 1).push(f(cs@[i - 1])));
            assert(views_of(out@) =~= ps_take_map(cs@, f, i as int));
        }
    }
    proof {
        assert(ps_take_map(cs@, f, cs@.len() as int) =~= cs@.map_values(f));
        assert(views_of(out@) =~= sensor_rows_of(cs@));
    }
    out
}

/// Which stored reading of a sensor is asked for.
#[derive(Clone, Copy, PartialEq, Eq, Structural)]
pub enum TempKind {
    Current,
    Highest,
    Critical,
}

/// The line a sensor shows for `k`: a sensor asked for a critical threshold
/// it does not report says so, rather than being silently dropped.
pub open spec fn temp_line(s: SensorReading, k: TempKind) -> Seq<char> {
    match k {
        TempKind::Current => reading_line(s.label@, s.temp@),
        TempKind::Highest => reading_line(s.label@, s.max@),
        TempKind::Critical => match s.crit {
            Some(c) => reading_line(s.label@, c@),
            None => s.label@ + ": no critical threshold reported"@,
        },
    }
}

/// A sensor of the internal storage: its label mentions SSD or HDD.
pub open spec fn is_storage(s: SensorReading) -> bool {
    has_sub(s.label@, "SSD"@) || has_sub(s.label@, "HDD"@)
}

/// A sensor of the graphics processor: its label mentions gpu.
pub open spec fn is_gpu(s: SensorReading) -> bool {
    has_sub(s.label@, "gpu"@)
}

/// The lines of the storage-temperature listing.
pub open spec fn storage_temp_rows(cs: Seq<SensorReading>, k: TempKind) -> Seq<Seq<char>>
    decreases cs.len(),
{
    if cs.len() == 0 {
        Seq::empty()
    } else {
        storage_temp_rows(cs.drop_last(), k) + (if is_storage(cs.last()) {
            seq![temp_line(cs.last(), k)]
        } else {
            Seq::empty()
        })
    }
}

/// The lines of the graphics-temperature listing.
pub open spec fn gpu_temp_rows(cs: Seq<SensorReading>, k: TempKind) -> Seq<Seq<char>>
    decreases cs.len(),
{
    if cs.len() == 0 {
        Seq::empty()
    } else {
        gpu_temp_rows(cs.drop_last(), k) + (if is_gpu(cs.last()) {
            seq![temp_line(cs.last(), k)]
        } else {
            Seq::empty()
        })
    }
}

fn temp_line_exec(s: &SensorReading, k: TempKind) -> (r: String)
    ensures
        r@ == temp_line(*s, k),
{
    match k {
        TempKind::Current => line4(s.label.as_str(), ": ", s.temp.as_str(), "\u{b0}C"),
        TempKind::Highest => line4(s.label.as_str(), ": ", s.max.as_str(), "\u{b0}C"),
        TempKind::Critical => match &s.crit {
            Some(c) => line4(s.label.as_str(), ": ", c.as_str(), "\u{b0}C"),
            None => line2(s.label.as_str(), ": no critical threshold reported"),
        },
    }
}

/// The storage-temperature listing: sensors whose label mentions SSD or HDD.
pub fn hddtemp_lines(cs: &Vec<SensorReading>, k: TempKind) -> (r: Vec<String>)
    ensures
        views_of(r@) == storage_temp_rows(cs@, k),
{
    let mut out: Vec<String> = Vec::new();
    let mut i: usize = 0;
    proof {
        assert(cs@.take(0) =~= Seq::<SensorReading>::empty());
        assert(views_of(out@) =~= storage_temp_rows(cs@.take(0), k));
    }
    while i < cs.len()
        invariant
            i <= cs@.len(),
            views_of(out@) == storage_temp_rows(cs@.take(i as int), k),
        decreases cs@.len() - i,
    {
        proof {
            assert(cs@.take(i + 1).drop_last() =~= cs@.take(i as int));
            assert(cs@.take(i + 1).last() == cs@[i as int]);
        }
        let s = &cs[i];
        let ghost pre = out@;
        let keep = contains_sub(s.label.as_str(), "SSD") || contains_sub(s.label.as_str(), "HDD");
        if keep {
            let line = temp_line_exec(s, k);
            out.push(line);
            proof {
                lemma_views_of_push(pre, out@[out@.len() - 1]);
                assert(views_of(out@) =~= storage_temp_rows(cs@.take(i + 1), k));
            }
        } else {
            proof {
                assert(views_of(out@) + Seq::<Seq<char>>::empty() =~= views_of(out@));
                assert(views_of(out@) =~= storage_temp_rows(cs@.take(i + 1), k));
            }
        }
        i += 1;
    }
    proof {
        assert(cs@.take(cs@.len() as int) =~= cs@);
    }
    out
}

/// The graphics-temperature listing: sensors whose label mentions gpu.
pub fn gputemp_lines(cs: &Vec<SensorReading>, k: TempKind) -> (r: Vec<String>)
    ensures
        views_of(r@) == gpu_temp_rows(cs@, k),
{
    let mut out: Vec<String> = Vec::new();
    let mut i: usize = 0;
    proof {
        assert(cs@.take(0) =~= Seq::<SensorReading>::empty());
        assert(views_of(out@) =~= gpu_temp_rows(cs@.take(0), k));
    }
    while i < cs.len()
        invariant
            i <= cs@.len(),
            views_of(out@) == gpu_temp_rows(cs@.take(i as int), k),
        decreases cs@.len() - i,
    {
        proof {
            assert(cs@.take(i + 1).drop_last() =~= cs@.take(i as int));
            assert(cs@.take(i + 1).last() == cs@[i as int]);
        }
        let s = &cs[i];
        let ghost pre = out@;
        if contains_sub(s.label.as_str(), "gpu") {
            let line = temp_line_exec(s, k);
            out.push(line);
            proof {
                lemma_views_of_push(pre, out@[out@.len() - 1]);
                assert(views_of(out@) =~= gpu_temp_rows(cs@.take(i + 1), k));
            }
        } else {
            proof {
                assert(views_of(out@) + Seq::<Seq<char>>::empty() =~= views_of(out@));
                assert(views_of(out@) =~= gpu_temp_rows(cs@.take(i + 1), k));
            }
        }
        i += 1;
    }
    proof {
        assert(cs@.take(cs@.len() as int) =~= cs@);
    }
    out
}

/// The display line of one network interface.
pub open spec fn net_line(n: NetRow) -> Seq<char> {
    "Interface "@ + n.name@ + ": transmitted: "@ + dec_of(n.tx as nat) + ", received: "@ + dec_of(
        n.rx as nat,
    )
}

/// The network listing: one line per interface with its packet counters.
pub fn network_lines(ns: &Vec<NetRow>) -> (r: Vec<String>)
    ensures
        views_of(r@) == net_rows_of(ns@),
{
    let ghost f = |n: NetRow| net_line(n);
    let mut out: Vec<String> = Vec::new();
    let mut i: usize = 0;
    proof {
        assert(views_of(out@) =~= ps_take_map(ns@, f, 0));
    }
    while i < ns.len()
        invariant
            i <= ns@.len(),
            f == (|n: NetRow| net_line(n)),
            views_of(out@) == ps_take_map(ns@, f, i as int),
        decreases ns@.len() - i,
    {
        let n = &ns[i];
        let tx = u64_str(n.tx);
        let rx = u64_str(n.rx);
        let ghost pre = out@;
        let line = line6(
            "Interface ",
            n.name.as_str(),
            ": transmitted: ",
            tx.as_str(),
            ", received: ",
            rx.as_str(),
        );
        out.push(line);
        i += 1;
        proof {
            lemma_views_of_push(pre, out@[out@.len() - 1]);
            assert(ps_take_map(ns@, f, i as int) =~= ps_take_map(ns@, f, i - 1).push(f(ns@[i - 1])));
            assert(views_of(out@) =~= ps_take_map(ns@, f, i as int));
        }
    }
    proof {
        assert(ps_take_map(ns@, f, ns@.len() as int) =~= ns@.map_values(f));
        assert(views_of(out@) =~= net_rows_of(ns@));
    }
    out
}

/// The three lines of the memory listing, in pretty-printed units.
pub open spec fn memory_lines_of(m: MemCounters) -> Seq<Seq<char>> {
    seq![
        "Total Memory: "@ + pretty_bytes_of(m.total),
        "Used Memory: "@ + pretty_bytes_of(m.used),
        "Free Memory: "@ + pretty_bytes_of(m.free),
    ]
}

/// The memory listing: total, used and free, human-readable.
pub fn memory_lines(m: &MemCounters, total_s: &String, used_s: &String, free_s: &String) -> (r: Vec<
    String,
>)
    requires
        total_s@ == pretty_bytes_of(m.total),
        used_s@ == pretty_bytes_of(m.used),
        free_s@ == pretty_bytes_of(m.free),
    ensures
        views_of(r@) == memory_lines_of(*m),
{
    let mut out: Vec<String> = Vec::new();
    let ghost g0 = out@;
    out.push(line2("Total Memory: ", total_s.as_str()));
    let ghost g1 = out@;
    out.push(line2("Used Memory: ", used_s.as_str()));
    let ghost g2 = out@;
    out.push(line2("Free Memory: ", free_s.as_str()));
    proof {
        lemma_views_of_push(g0, out@[0]);
        lemma_views_of_push(g1, out@[1]);
        lemma_views_of_push(g2, out@[2]);
        assert(views_of(out@) =~= memory_lines_of(*m));
    }
    out
}

/// The four lines of the system identity listing.
pub open spec fn ident_lines_of(
    name: Seq<char>,
    kernel: Seq<char>,
    os: Seq<char>,
    host: Seq<char>,
) -> Seq<Seq<char>> {
    seq![
        "Name: "@ + name,
        "Kernel version: "@ + kernel,
        "OS version: "@ + os,
        "Host name: "@ + host,
    ]
}

/// The system identity listing: name, kernel, OS version and host name.
pub fn ident_lines(name: &String, kernel: &String, os: &String, host: &String) -> (r: Vec<String>)
    ensures
        views_of(r@) == ident_lines_of(name@, kernel@, os@, host@),
{
    let mut out: Vec<String> = Vec::new();
    let ghost g0 = out@;
    out.push(line2("Name: ", name.as_str()));
    let ghost g1 = out@;
    out.push(line2("Kernel version: ", kernel.as_str()));
    let ghost g2 = out@;
    out.push(line2("OS version: ", os.as_str()));
    let ghost g3 = out@;
    out.push(line2("Host name: ", host.as_str()));
    proof {
        lemma_views_of_push(g0, out@[0]);
        lemma_views_of_push(g1, out@[1]);
        lemma_views_of_push(g2, out@[2]);
        lemma_views_of_push(g3, out@[3]);
        assert(views_of(out@) =~= ident_lines_of(name@, kernel@, os@, host@));
    }
    out
}

} // verus!
