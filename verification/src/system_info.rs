//! What an agent reports of its own host.

use crate::text::{
    contains_text, has_prefix, lines_of, lines_of_text, lowercase, occurs_in, replace_text, replaced,
    split_at, split_text, starts_with_text, texts, to_lowercase, trim_text, trimmed,
};
use vstd::prelude::*;

verus! {

/// Facts about the host that change rarely.
#[derive(Debug)]
pub struct CachedInfo {
    pub os_version: String,
    pub apache_version: String,
    pub php_version: String,
    pub mariadb_version: String,
    pub rust_version: String,
    pub node_version: String,
    pub npm_version: String,
    pub processor: String,
    pub total_ram: u64,
    pub disk_capacity: u64,
    pub disk_usage: u64,
    pub boot_time: u64,
    /// Mean clock speed of the processors, in MHz.
    pub average_cpu_speed_mhz: u64,
    /// Highest clock speed among the processors, in MHz.
    pub max_cpu_speed_mhz: u64,
}

/// Whether a service that the agent watches is running.
#[derive(Debug)]
pub struct ServiceStatus {
    pub name: String,
    pub running: bool,
}

/// One process of the host.
#[derive(Debug)]
pub struct ProcessInfo {
    pub pid: u32,
    pub name: String,
    /// Memory in use, in KB.
    pub memory: u64,
}

/// A process, with its name as a sequence of characters.
pub struct ProcessView {
    pub pid: u32,
    pub name: Seq<char>,
    pub memory: u64,
}

impl View for ProcessInfo {
    type V = ProcessView;

    open spec fn view(&self) -> ProcessView {
        ProcessView { pid: self.pid, name: self.name@, memory: self.memory }
    }
}

impl Clone for ProcessInfo {
    fn clone(&self) -> (r: Self)
        ensures
            r == *self,
    {
        ProcessInfo { pid: self.pid, name: self.name.clone(), memory: self.memory }
    }
}

/// A list of processes, each by its view.
pub open spec fn process_views(s: Seq<ProcessInfo>) -> Seq<ProcessView> {
    s.map_values(|p: ProcessInfo| p@)
}

/// The sum of a list of numbers.
pub open spec fn sum(values: Seq<u64>) -> int
    decreases values.len(),
{
    if values.len() == 0 {
        0
    } else {
        sum(values.drop_last()) + values.last()
    }
}

/// The largest of a list of numbers, 0 for the empty list.
pub open spec fn largest(values: Seq<u64>) -> u64
    decreases values.len(),
{
    if values.len() == 0 {
        0
    } else if largest(values.drop_last()) >= values.last() {
        largest(values.drop_last())
    } else {
        values.last()
    }
}

/// No part of a list sums to more than the whole.
pub proof fn lemma_sum_of_part(values: Seq<u64>, n: int)
    requires
        0 <= n <= values.len(),
    ensures
        sum(values.take(n)) <= sum(values),
    decreases values.len() - n,
{
    if n == values.len() {
        assert(values.take(n) =~= values);
    } else {
        lemma_sum_of_part(values, n + 1);
        assert(values.take(n + 1).drop_last() =~= values.take(n));
    }
}

/// The largest number of a list is one of its numbers and no smaller than
/// any of them.
pub proof fn law_largest(values: Seq<u64>)
    requires
        values.len() > 0,
    ensures
        values.contains(largest(values)),
        forall|i: int| 0 <= i < values.len() ==> values[i] <= largest(values),
    decreases values.len(),
{
    let init = values.drop_last();
    assert(values[values.len() - 1] == values.last());
    if init.len() > 0 {
        law_largest(init);
        let at = choose|i: int| 0 <= i < init.len() && init[i] == largest(init);
        assert(values[at] == largest(init));
        assert forall|i: int| 0 <= i < values.len() implies values[i] <= largest(values) by {
            if i < init.len() {
                assert(init[i] == values[i]);
            }
        }
    } else {
        assert(largest(init) == 0);
    }
}

/// Adds up a list of numbers: the capacities of the disks, the bytes that
/// the network interfaces took in. The sum has to fit into 64 bits.
pub fn total(values: &Vec<u64>) -> (r: u64)
    requires
        sum(values@) <= u64::MAX,
    ensures
        r == sum(values@),
{
    let mut acc: u64 = 0;
    let mut i: usize = 0;
    while i < values.len()
        invariant
            i <= values.len(),
            acc == sum(values@.take(i as int)),
            sum(values@) <= u64::MAX,
        decreases values.len() - i,
    {
        proof {
            lemma_sum_of_part(values@, i + 1);
            assert(values@.take(i + 1).drop_last() =~= values@.take(i as int));
        }
        acc = acc + values[i];
        i += 1;
    }
    assert(values@.take(values.len() as int) =~= values@);
    acc
}

/// The mean and the highest of the processors' clock speeds; both 0 where
/// there is no processor. The mean is rounded down. The sum of the speeds
/// has to fit into 64 bits.
pub fn cpu_speeds(frequencies: &Vec<u64>) -> (r: (u64, u64))
    requires
        sum(frequencies@) <= u64::MAX,
    ensures
        frequencies@.len() == 0 ==> r == (0u64, 0u64),
        frequencies@.len() > 0 ==> r.0 == sum(frequencies@) / (frequencies@.len() as int),
        r.1 == largest(frequencies@),
{
    if frequencies.len() == 0 {
        return (0, 0);
    }
    let mut highest: u64 = 0;
    let mut i: usize = 0;
    while i < frequencies.len()
        invariant
            i <= frequencies.len(),
            highest == largest(frequencies@.take(i as int)),
        decreases frequencies.len() - i,
    {
        proof {
            assert(frequencies@.take(i + 1).drop_last() =~= frequencies@.take(i as int));
        }
        if frequencies[i] > highest {
            highest = frequencies[i];
        }
        i += 1;
    }
    assert(frequencies@.take(frequencies.len() as int) =~= frequencies@);
    let count = frequencies.len() as u64;
    (total(frequencies) / count, highest)
}

/// The size of one disk and how much of it is free, in bytes.
#[derive(Clone, Copy, Debug, PartialEq, Eq, Structural)]
pub struct DiskSpace {
    pub total: u64,
    pub available: u64,
}

/// The capacity of all disks together.
pub open spec fn capacity_of(disks: Seq<DiskSpace>) -> int
    decreases disks.len(),
{
    if disks.len() == 0 {
        0
    } else {
        capacity_of(disks.drop_last()) + disks.last().total
    }
}

/// The space in use on all disks together.
pub open spec fn usage_of(disks: Seq<DiskSpace>) -> int
    decreases disks.len(),
{
    if disks.len() == 0 {
        0
    } else {
        usage_of(disks.drop_last()) + (disks.last().total - disks.last().available)
    }
}

/// No disk has more free space than space.
pub open spec fn plausible(disks: Seq<DiskSpace>) -> bool {
    forall|i: int| 0 <= i < disks.len() ==> (#[trigger] disks[i]).available <= disks[i].total
}

/// Of plausible disks, a part has no more capacity than the whole, and no
/// more is in use than there is capacity.
pub proof fn lemma_disk_part(disks: Seq<DiskSpace>, n: int)
    requires
        0 <= n <= disks.len(),
        plausible(disks),
    ensures
        0 <= usage_of(disks.take(n)) <= capacity_of(disks.take(n)) <= capacity_of(disks),
    decreases disks.len() - n,
{
    if n == disks.len() {
        assert(disks.take(n) =~= disks);
        lemma_usage_within(disks);
    } else {
        lemma_disk_part(disks, n + 1);
        assert(disks.take(n + 1).drop_last() =~= disks.take(n));
        assert(disks.take(n + 1).last() == disks[n]);
        lemma_usage_within(disks.take(n));
    }
}

proof fn lemma_usage_within(disks: Seq<DiskSpace>)
    requires
        plausible(disks),
    ensures
        0 <= usage_of(disks) <= capacity_of(disks),
    decreases disks.len(),
{
    if disks.len() > 0 {
        assert(disks.last() == disks[disks.len() - 1]);
        assert forall|i: int| 0 <= i < disks.drop_last().len() implies (
        #[trigger] disks.drop_last()[i]).available <= disks.drop_last()[i].total by {
            assert(disks.drop_last()[i] == disks[i]);
        }
        lemma_usage_within(disks.drop_last());
    }
}

/// The capacity of all disks together and the space in use on them. No
/// disk may have more free space than space, and the capacities have to
/// add up to a number of 64 bits.
pub fn disk_totals(disks: &Vec<DiskSpace>) -> (r: (u64, u64))
    requires
        plausible(disks@),
        capacity_of(disks@) <= u64::MAX,
    ensures
        r.0 == capacity_of(disks@),
        r.1 == usage_of(disks@),
{
    let mut capacity: u64 = 0;
    let mut used: u64 = 0;
    let mut i: usize = 0;
    while i < disks.len()
        invariant
            i <= disks.len(),
            plausible(disks@),
            capacity_of(disks@) <= u64::MAX,
            capacity == capacity_of(disks@.take(i as int)),
            used == usage_of(disks@.take(i as int)),
        decreases disks.len() - i,
    {
        proof {
            lemma_disk_part(disks@, i + 1);
            assert(disks@.take(i + 1).drop_last() =~= disks@.take(i as int));
            assert(disks@.take(i + 1).last() == disks@[i as int]);
        }
        let disk = disks[i];
        capacity = capacity + disk.total;
        used = used + (disk.total - disk.available);
        i += 1;
    }
    assert(disks@.take(disks.len() as int) =~= disks@);
    (capacity, used)
}

/// The space in use on the disks: what is not free of the capacity, and
/// nothing where there is no capacity. Where there is capacity, no more of
/// it may be free than there is.
pub fn disk_used(capacity: u64, free: u64) -> (r: u64)
    requires
        capacity > 0 ==> free <= capacity,
    ensures
        r == (if capacity > 0 {
            capacity - free
        } else {
            0
        }),
{
    if capacity > 0 {
        capacity - free
    } else {
        0
    }
}

/// Where a process with `memory` goes in a ranked list: behind every
/// process with at least that much memory.
pub open spec fn rank_of(ranked: Seq<ProcessView>, memory: u64) -> int
    decreases ranked.len(),
{
    if ranked.len() == 0 {
        0
    } else if ranked.last().memory >= memory {
        ranked.len() as int
    } else {
        rank_of(ranked.drop_last(), memory)
    }
}

/// The processes by memory, largest first; processes with equal memory stay
/// in the order in which they were listed.
pub open spec fn by_memory(processes: Seq<ProcessView>) -> Seq<ProcessView>
    decreases processes.len(),
{
    if processes.len() == 0 {
        Seq::empty()
    } else {
        let ranked = by_memory(processes.drop_last());
        ranked.insert(rank_of(ranked, processes.last().memory), processes.last())
    }
}

/// The five processes that use the most memory, largest first; all of them
/// where there are fewer than five.
pub open spec fn top_five(processes: Seq<ProcessView>) -> Seq<ProcessView> {
    by_memory(processes).take(
        if processes.len() < 5 {
            processes.len() as int
        } else {
            5
        },
    )
}

/// Memory does not grow along the list.
pub open spec fn falling(s: Seq<ProcessView>) -> bool {
    forall|i: int, j: int| 0 <= i < j < s.len() ==> (#[trigger] s[i]).memory >= (#[trigger] s[j]).memory
}

/// In a falling list, a rank has every process with at least that memory in
/// front of it and every process with less behind it.
proof fn lemma_rank_of(ranked: Seq<ProcessView>, memory: u64)
    requires
        falling(ranked),
    ensures
        0 <= rank_of(ranked, memory) <= ranked.len(),
        forall|i: int| 0 <= i < rank_of(ranked, memory) ==> (#[trigger] ranked[i]).memory >= memory,
        forall|i: int|
            rank_of(ranked, memory) <= i < ranked.len() ==> (#[trigger] ranked[i]).memory < memory,
    decreases ranked.len(),
{
    if ranked.len() > 0 {
        let init = ranked.drop_last();
        assert forall|i: int, j: int| 0 <= i < j < init.len() implies (#[trigger] init[i]).memory >= (
        #[trigger] init[j]).memory by {
            assert(ranked[i].memory >= ranked[j].memory);
        }
        lemma_rank_of(init, memory);
        assert(ranked.last() == ranked[ranked.len() - 1]);
        if ranked.last().memory >= memory {
            assert forall|i: int| 0 <= i < ranked.len() implies (#[trigger] ranked[i]).memory
                >= memory by {
                if i < ranked.len() - 1 {
                    assert(ranked[i].memory >= ranked[ranked.len() - 1].memory);
                }
            }
        } else {
            assert forall|i: int| 0 <= i < rank_of(ranked, memory) implies (
            #[trigger] ranked[i]).memory >= memory by {
                assert(init[i] == ranked[i]);
            }
            assert forall|i: int| rank_of(ranked, memory) <= i < ranked.len() implies (
            #[trigger] ranked[i]).memory < memory by {
                if i < init.len() {
                    assert(init[i] == ranked[i]);
                }
            }
        }
    }
}

/// The ranked list holds the processes that were listed, each as often as
/// it was listed, and memory does not grow along it.
pub proof fn law_by_memory(processes: Seq<ProcessView>)
    ensures
        falling(by_memory(processes)),
        by_memory(processes).len() == processes.len(),
        by_memory(processes).to_multiset() == processes.to_multiset(),
    decreases processes.len(),
{
    broadcast use vstd::seq_lib::to_multiset_insert, vstd::seq_lib::to_multiset_build;

    if processes.len() == 0 {
        assert(processes =~= Seq::<ProcessView>::empty());
    } else {
        let init = processes.drop_last();
        let x = processes.last();
        let ranked = by_memory(init);
        law_by_memory(init);
        lemma_rank_of(ranked, x.memory);
        let at = rank_of(ranked, x.memory);
        let out = ranked.insert(at, x);
        ranked.insert_ensures(at, x);
        assert forall|i: int, j: int| 0 <= i < j < out.len() implies (#[trigger] out[i]).memory >= (
        #[trigger] out[j]).memory by {
            if j < at {
                assert(out[i] == ranked[i] && out[j] == ranked[j]);
            } else if j == at {
                assert(out[i] == ranked[i]);
            } else if i < at {
                assert(out[i] == ranked[i] && out[j] == ranked[j - 1]);
            } else if i == at {
                assert(out[j] == ranked[j - 1]);
            } else {
                assert(out[i] == ranked[i - 1] && out[j] == ranked[j - 1]);
            }
        }
        assert(init.push(x) =~= processes);
        assert(out.to_multiset() == ranked.to_multiset().insert(x));
        assert(init.push(x).to_multiset() =~= init.to_multiset().insert(x));
    }
}

/// Ranks the processes by memory, largest first; equal ones keep their
/// order.
pub fn rank_by_memory(processes: &Vec<ProcessInfo>) -> (r: Vec<ProcessInfo>)
    ensures
        process_views(r@) == by_memory(process_views(processes@)),
{
    let mut out: Vec<ProcessInfo> = Vec::new();
    let ghost listed = process_views(processes@);
    let mut i: usize = 0;
    assert(process_views(out@) =~= by_memory(listed.take(0)));
    while i < processes.len()
        invariant
            i <= processes.len(),
            listed == process_views(processes@),
            out@.len() == i,
            process_views(out@) == by_memory(listed.take(i as int)),
        decreases processes.len() - i,
    {
        let memory = processes[i].memory;
        let ghost ranked = process_views(out@);
        let mut at: usize = out.len();
        assert(ranked.take(at as int) =~= ranked);
        while at > 0 && out[at - 1].memory < memory
            invariant
                at <= out@.len(),
                ranked == process_views(out@),
                rank_of(ranked, memory) == rank_of(ranked.take(at as int), memory),
            decreases at,
        {
            proof {
                assert(ranked.take(at as int).drop_last() =~= ranked.take(at - 1));
                assert(ranked.take(at as int).last() == out@[at - 1]@);
            }
            at -= 1;
        }
        proof {
            if at > 0 {
                assert(ranked.take(at as int).last() == out@[at - 1]@);
            }
            assert(rank_of(ranked, memory) == at);
            assert(listed.take(i + 1).drop_last() =~= listed.take(i as int));
            assert(listed.take(i + 1).last() == processes@[i as int]@);
        }
        let ghost shorter = out@;
        out.insert(at, processes[i].clone());
        assert(process_views(out@) =~= process_views(shorter).insert(
            at as int,
            processes@[i as int]@,
        ));
        i += 1;
    }
    assert(listed.take(processes.len() as int) =~= listed);
    out
}

/// The five processes that use the most memory, largest first.
pub fn top_processes(processes: &Vec<ProcessInfo>) -> (r: Vec<ProcessInfo>)
    ensures
        process_views(r@) == top_five(process_views(processes@)),
{
    let mut ranked = rank_by_memory(processes);
    proof {
        law_by_memory(process_views(processes@));
    }
    if ranked.len() > 5 {
        ranked.truncate(5);
    }
    assert(process_views(ranked@) =~= top_five(process_views(processes@)));
    ranked
}

/// Some text of the list holds `word`.
pub open spec fn some_holds(list: Seq<Seq<char>>, word: Seq<char>) -> bool {
    exists|i: int| 0 <= i < list.len() && occurs_in(#[trigger] list[i], word)
}

/// The names of a list, each in lower case.
pub open spec fn lowered(names: Seq<String>) -> Seq<Seq<char>> {
    names.map_values(|name: String| lowercase(name@))
}

/// Tells whether some text of the list holds `word`.
pub fn holds_word(list: &Vec<String>, word: &str) -> (r: bool)
    ensures
        r == some_holds(texts(list@), word@),
{
    let mut i: usize = 0;
    while i < list.len()
        invariant
            i <= list.len(),
            forall|j: int| 0 <= j < i ==> !occurs_in(#[trigger] texts(list@)[j], word@),
        decreases list.len() - i,
    {
        if contains_text(list[i].as_str(), word) {
            assert(occurs_in(texts(list@)[i as int], word@));
            return true;
        }
        i += 1;
    }
    false
}

/// Tells from the names of the running processes, given in lower case,
/// which of the watched services run: `Apache2`, where some name holds
/// `apache2`, and `MariaDB`, where some name holds `mariadb` or `mysql`.
pub fn services_among(names: &Vec<String>) -> (r: Vec<ServiceStatus>)
    ensures
        r@.len() == 2,
        r@[0].name@ == "Apache2"@,
        r@[0].running == some_holds(texts(names@), "apache2"@),
        r@[1].name@ == "MariaDB"@,
        r@[1].running == (some_holds(texts(names@), "mariadb"@) || some_holds(
            texts(names@),
            "mysql"@,
        )),
{
    let web = holds_word(names, "apache2");
    let database = holds_word(names, "mariadb") || holds_word(names, "mysql");
    let mut out: Vec<ServiceStatus> = Vec::new();
    out.push(ServiceStatus { name: "Apache2".to_owned(), running: web });
    out.push(ServiceStatus { name: "MariaDB".to_owned(), running: database });
    out
}

/// Tells from the names of the running processes which of the watched
/// services run, without regard to case: the names are put into lower case
/// and handed to [`services_among`].
pub fn service_statuses(names: &Vec<String>) -> (r: Vec<ServiceStatus>)
    ensures
        r@.len() == 2,
        r@[0].name@ == "Apache2"@,
        r@[0].running == some_holds(lowered(names@), "apache2"@),
        r@[1].name@ == "MariaDB"@,
        r@[1].running == (some_holds(lowered(names@), "mariadb"@) || some_holds(
            lowered(names@),
            "mysql"@,
        )),
{
    let mut low: Vec<String> = Vec::new();
    let mut i: usize = 0;
    assert(texts(low@) =~= lowered(names@).take(0));
    while i < names.len()
        invariant
            i <= names.len(),
            texts(low@) == lowered(names@).take(i as int),
        decreases names.len() - i,
    {
        let ghost shorter = low@;
        let name = to_lowercase(names[i].as_str());
        low.push(name);
        assert(texts(low@) =~= texts(shorter).push(lowercase(names@[i as int]@)));
        assert(lowered(names@).take(i + 1) =~= lowered(names@).take(i as int).push(
            lowercase(names@[i as int]@),
        ));
        i += 1;
    }
    assert(lowered(names@).take(names.len() as int) =~= lowered(names@));
    services_among(&low)
}

/// A line has a part behind a colon.
pub open spec fn has_colon(line: Seq<char>) -> bool {
    split_at(line, ':').len() > 1
}

/// A line is the one looked for: it begins with `prefix` and, where
/// `parted` is set, has a part behind a colon.
pub open spec fn fits(line: Seq<char>, prefix: Seq<char>, parted: bool) -> bool {
    has_prefix(line, prefix) && (parted ==> has_colon(line))
}

/// The first line that fits.
pub open spec fn first_line_with(
    lines: Seq<Seq<char>>,
    prefix: Seq<char>,
    parted: bool,
) -> Option<Seq<char>>
    decreases lines.len(),
{
    if lines.len() == 0 {
        None
    } else {
        match first_line_with(lines.drop_last(), prefix, parted) {
            Some(line) => Some(line),
            None => if fits(lines.last(), prefix, parted) {
                Some(lines.last())
            } else {
                None
            },
        }
    }
}

/// Where there is a first line that fits, it fits; where there is none, no
/// line fits.
pub proof fn law_first_line(lines: Seq<Seq<char>>, prefix: Seq<char>, parted: bool)
    ensures
        match first_line_with(lines, prefix, parted) {
            Some(line) => fits(line, prefix, parted) && lines.contains(line),
            None => forall|i: int| 0 <= i < lines.len() ==> !fits(#[trigger] lines[i], prefix, parted),
        },
    decreases lines.len(),
{
    if lines.len() > 0 {
        let init = lines.drop_last();
        law_first_line(init, prefix, parted);
        assert(lines.last() == lines[lines.len() - 1]);
        match first_line_with(init, prefix, parted) {
            Some(line) => {
                let at = choose|i: int| 0 <= i < init.len() && init[i] == line;
                assert(lines[at] == line);
            },
            None => {
                assert forall|i: int| 0 <= i < lines.len() && first_line_with(
                    lines,
                    prefix,
                    parted,
                ) is None implies !fits(#[trigger] lines[i], prefix, parted) by {
                    if i < init.len() {
                        assert(init[i] == lines[i]);
                    }
                }
            },
        }
    }
}

/// Where no line before the line `i` fits and that line does, it is the
/// first.
proof fn lemma_first_line_found(lines: Seq<Seq<char>>, prefix: Seq<char>, parted: bool, i: int)
    requires
        0 <= i < lines.len(),
        first_line_with(lines.take(i), prefix, parted) is None,
        fits(lines[i], prefix, parted),
    ensures
        first_line_with(lines, prefix, parted) == Some(lines[i]),
    decreases lines.len() - i,
{
    assert(lines.take(i + 1).drop_last() =~= lines.take(i));
    assert(lines.take(i + 1).last() == lines[i]);
    lemma_first_line_stays(lines, prefix, parted, i + 1);
}

/// A line that was found first among the first `n` lines is first among
/// all lines.
proof fn lemma_first_line_stays(lines: Seq<Seq<char>>, prefix: Seq<char>, parted: bool, n: int)
    requires
        0 <= n <= lines.len(),
        first_line_with(lines.take(n), prefix, parted) is Some,
    ensures
        first_line_with(lines, prefix, parted) == first_line_with(lines.take(n), prefix, parted),
    decreases lines.len() - n,
{
    if n == lines.len() {
        assert(lines.take(n) =~= lines);
    } else {
        assert(lines.take(n + 1).drop_last() =~= lines.take(n));
        lemma_first_line_stays(lines, prefix, parted, n + 1);
    }
}

/// Finds the first line that begins with `prefix` and, where `parted` is
/// set, has a part behind a colon. The result is its place among the lines:
/// no line before it fits.
pub fn first_line(lines: &Vec<String>, prefix: &str, parted: bool) -> (r: Option<usize>)
    ensures
        match r {
            Some(i) => {
                &&& i < lines@.len()
                &&& first_line_with(texts(lines@), prefix@, parted) == Some(lines@[i as int]@)
                &&& fits(lines@[i as int]@, prefix@, parted)
                &&& forall|j: int| 0 <= j < i ==> !fits(#[trigger] lines@[j]@, prefix@, parted)
            },
            None => {
                &&& first_line_with(texts(lines@), prefix@, parted) is None
                &&& forall|j: int| 0 <= j < lines@.len() ==> !fits(#[trigger] lines@[j]@, prefix@, parted)
            },
        },
{
    let ghost all = texts(lines@);
    let mut i: usize = 0;
    while i < lines.len()
        invariant
            i <= lines.len(),
            all == texts(lines@),
            first_line_with(all.take(i as int), prefix@, parted) is None,
            forall|j: int| 0 <= j < i ==> !fits(#[trigger] lines@[j]@, prefix@, parted),
        decreases lines.len() - i,
    {
        proof {
            assert(all.take(i + 1).drop_last() =~= all.take(i as int));
            assert(all.take(i + 1).last() == lines@[i as int]@);
            assert(all[i as int] == lines@[i as int]@);
        }
        if starts_with_text(lines[i].as_str(), prefix) {
            let found = if parted {
                let parts = split_text(lines[i].as_str(), ':');
                parts.len() > 1
            } else {
                true
            };
            if found {
                proof {
                    lemma_first_line_found(all, prefix@, parted, i as int);
                }
                return Some(i);
            }
        }
        i += 1;
    }
    assert(all.take(lines.len() as int) =~= all);
    None
}

/// The name of the operating system, as the text of an `os-release` file
/// gives it: what is left of the first line that begins with
/// `PRETTY_NAME=` when `PRETTY_NAME=` and the double quotes are taken out
/// of it. `Unknown OS` where no line begins so.
pub open spec fn os_version_of(os_release: Seq<char>) -> Seq<char> {
    match first_line_with(lines_of(os_release), "PRETTY_NAME="@, false) {
        Some(line) => replaced(replaced(line, "PRETTY_NAME="@, ""@), "\""@, ""@),
        None => "Unknown OS"@,
    }
}

/// Reads the name of the operating system from the text of an `os-release`
/// file; see [`os_version_of`].
pub fn os_version(os_release: &str) -> (r: String)
    ensures
        r@ == os_version_of(os_release@),
{
    let lines = lines_of_text(os_release);
    match first_line(&lines, "PRETTY_NAME=", false) {
        Some(i) => {
            let bare = replace_text(lines[i].as_str(), "PRETTY_NAME=", "");
            replace_text(bare.as_str(), "\"", "")
        },
        None => "Unknown OS".to_owned(),
    }
}

/// The first of the lines that a command printed, `Unknown` where it
/// printed none.
pub fn version_line(lines: &Vec<String>) -> (r: String)
    ensures
        r@ == (if lines@.len() > 0 {
            lines@[0]@
        } else {
            "Unknown"@
        }),
{
    if lines.len() > 0 {
        lines[0].clone()
    } else {
        "Unknown".to_owned()
    }
}

/// The version that a command reports: the first line of what it printed,
/// `Unknown` where it printed nothing, and `Not installed` where it could
/// not be run or did not end well.
pub open spec fn command_version_of(output: Option<Seq<char>>) -> Seq<char> {
    match output {
        Some(printed) => if lines_of(printed).len() > 0 {
            lines_of(printed)[0]
        } else {
            "Unknown"@
        },
        None => "Not installed"@,
    }
}

/// What a command printed, where it ran and ended well.
pub open spec fn printed_view(output: Option<&str>) -> Option<Seq<char>> {
    match output {
        Some(printed) => Some(printed@),
        None => None,
    }
}

/// Reads the version that a command reports; `output` is what the command
/// printed, and `None` where it could not be run or did not end well. See
/// [`command_version_of`].
pub fn command_version(output: Option<&str>) -> (r: String)
    ensures
        r@ == command_version_of(printed_view(output)),
{
    match output {
        Some(printed) => {
            let lines = lines_of_text(printed);
            proof {
                if lines@.len() > 0 {
                    assert(texts(lines@)[0] == lines@[0]@);
                }
            }
            version_line(&lines)
        },
        None => "Not installed".to_owned(),
    }
}

/// The name of the processor, as the text of a `cpuinfo` file gives it:
/// of the first line that begins with `model name` and holds a colon, what
/// stands between its first colon and its second, or its end, without the
/// white space around it. `Unknown Processor` where there is no such line.
pub open spec fn processor_of(cpuinfo: Seq<char>) -> Seq<char> {
    match first_line_with(lines_of(cpuinfo), "model name"@, true) {
        Some(line) => trimmed(split_at(line, ':')[1]),
        None => "Unknown Processor"@,
    }
}

/// Reads the name of the processor from the text of a `cpuinfo` file; see
/// [`processor_of`].
pub fn processor_info(cpuinfo: &str) -> (r: String)
    ensures
        r@ == processor_of(cpuinfo@),
{
    let lines = lines_of_text(cpuinfo);
    match first_line(&lines, "model name", true) {
        Some(i) => {
            let parts = split_text(lines[i].as_str(), ':');
            assert(texts(parts@).len() > 1);
            assert(texts(parts@)[1] == parts@[1]@);
            trim_text(parts[1].as_str()).to_owned()
        },
        None => "Unknown Processor".to_owned(),
    }
}

} // verus!
