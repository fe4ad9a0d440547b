//! A pane's process tree: the pane's process and all its descendants, found
//! by following parent links, with their memory summed.
use vstd::prelude::*;

use crate::text::{parse_unsigned, parse_unsigned_chars, str_chars};

verus! {

/// A pane's process id as tmux reports it, when it is one (`str::parse` into
/// a `u32`).
pub fn parse_pid(text: &str) -> (res: Option<u32>)
    ensures
        match res {
            Some(v) => parse_unsigned(text@, u32::MAX as nat) == Some(v as nat),
            None => parse_unsigned(text@, u32::MAX as nat) is None,
        },
{
    let chars = str_chars(text);
    match parse_unsigned_chars(chars.as_slice(), 0xffff_ffff) {
        Some(v) => Some(v as u32),
        None => None,
    }
}

/// A process as a sample saw it: its id, its parent's id, and its memory in
/// bytes.
#[derive(Clone, Copy, Debug, PartialEq, Eq)]
pub struct ProcessRecord {
    pub pid: u32,
    pub parent: Option<u32>,
    pub memory_bytes: u64,
}

/// What a process tree comes to: its processes in the order they were
/// visited, their memory (saturating) and how many there are.
#[derive(Clone, Debug, PartialEq, Eq)]
pub struct ProcessTree {
    pub pids: Vec<u32>,
    pub memory_bytes: u64,
    pub process_count: usize,
}

/// Some record is of process `pid`.
pub open spec fn has_record(records: Seq<ProcessRecord>, pid: u32) -> bool {
    exists|i: int| 0 <= i < records.len() && records[i].pid == pid
}

/// A record says that `child`'s parent is `parent`.
pub open spec fn child_of(records: Seq<ProcessRecord>, parent: u32, child: u32) -> bool {
    exists|i: int|
        0 <= i < records.len() && records[i].pid == child && records[i].parent == Some(parent)
}

/// Each process of `path` is a child of the one before it.
pub open spec fn is_path(records: Seq<ProcessRecord>, path: Seq<u32>) -> bool {
    &&& path.len() > 0
    &&& forall|k: int| 0 <= k < path.len() - 1 ==> child_of(records, #[trigger] path[k], path[k + 1])
}

/// `pid` is `root` or one of its descendants.
pub open spec fn descends(records: Seq<ProcessRecord>, root: u32, pid: u32) -> bool {
    exists|path: Seq<u32>| #[trigger] is_path(records, path) && path[0] == root && path.last() == pid
}

/// The memory of the first record of `pid` (0 when there is none).
pub open spec fn first_memory(records: Seq<ProcessRecord>, pid: u32) -> u64
    decreases records.len(),
{
    if records.len() == 0 {
        0
    } else if records[0].pid == pid {
        records[0].memory_bytes
    } else {
        first_memory(records.drop_first(), pid)
    }
}

/// The memory of the processes, added in order, saturating at `u64::MAX`.
pub open spec fn memory_total(records: Seq<ProcessRecord>, pids: Seq<u32>) -> u64
    decreases pids.len(),
{
    if pids.len() == 0 {
        0
    } else {
        memory_total(records, pids.drop_last()).saturating_add(first_memory(records, pids.last()))
    }
}

/// The children of `pid`, in the order of their records.
pub open spec fn children(records: Seq<ProcessRecord>, pid: u32) -> Seq<u32>
    decreases records.len(),
{
    if records.len() == 0 {
        seq![]
    } else if records.last().parent == Some(pid) {
        children(records.drop_last(), pid).push(records.last().pid)
    } else {
        children(records.drop_last(), pid)
    }
}

/// A depth-first walk: take the process on top of `stack`; unless it was
/// visited already, visit it and put its children on top, the last child
/// uppermost. What it gives is `visited` followed by each process in the
/// order it is first visited.
pub open spec fn walk(records: Seq<ProcessRecord>, stack: Seq<u32>, visited: Seq<u32>) -> Seq<u32>
    decreases records.len() - visited.len(), stack.len(),
{
    if stack.len() == 0 || visited.len() >= records.len() {
        visited
    } else if visited.contains(stack.last()) {
        walk(records, stack.drop_last(), visited)
    } else {
        walk(
            records,
            stack.drop_last() + children(records, stack.last()),
            visited.push(stack.last()),
        )
    }
}

/// The processes of the tree under `root` in the order a depth-first walk
/// from `root` visits them.
pub open spec fn visit_order(records: Seq<ProcessRecord>, root: u32) -> Seq<u32> {
    walk(records, seq![root], seq![])
}

/// Whether some record is of process `pid`.
fn find_record(records: &[ProcessRecord], pid: u32) -> (res: Option<u64>)
    ensures
        match res {
            Some(m) => has_record(records@, pid) && m == first_memory(records@, pid),
            None => !has_record(records@, pid),
        },
{
    let ghost rs = records@;
    let mut i: usize = 0;
    assert(rs.skip(0) =~= rs);
    while i < records.len()
        invariant
            i <= records.len(),
            rs == records@,
            forall|j: int| 0 <= j < i ==> rs[j].pid != pid,
            first_memory(rs, pid) == first_memory(rs.skip(i as int), pid),
        decreases records.len() - i,
    {
        assert(rs.skip(i as int)[0] == rs[i as int]);
        if records[i].pid == pid {
            return Some(records[i].memory_bytes);
        }
        assert(rs.skip(i as int).drop_first() =~= rs.skip(i + 1));
        i += 1;
    }
    None
}

fn holds_pid(v: &Vec<u32>, pid: u32) -> (res: bool)
    ensures
        res == v@.contains(pid),
{
    let mut i: usize = 0;
    while i < v.len()
        invariant
            i <= v.len(),
            forall|j: int| 0 <= j < i ==> v@[j] != pid,
        decreases v.len() - i,
    {
        if v[i] == pid {
            assert(v@[i as int] == pid);
            return true;
        }
        i += 1;
    }
    false
}

/// Distinct processes that all have records are no more than the records.
proof fn lemma_visited_bound(records: Seq<ProcessRecord>, visited: Seq<u32>)
    requires
        visited.no_duplicates(),
        forall|k: int| 0 <= k < visited.len() ==> has_record(records, #[trigger] visited[k]),
    ensures
        visited.len() <= records.len(),
{
    broadcast use vstd::seq_lib::seq_to_set_is_finite;

    let pids = records.map_values(|r: ProcessRecord| r.pid);
    visited.unique_seq_to_set();
    pids.lemma_cardinality_of_set();
    assert forall|x: u32| visited.to_set().contains(x) implies pids.to_set().contains(x) by {
        let k = choose|k: int| 0 <= k < visited.len() && visited[k] == x;
        assert(has_record(records, visited[k]));
        let i = choose|i: int| 0 <= i < records.len() && records[i].pid == x;
        assert(pids[i] == x);
    }
    vstd::set_lib::lemma_len_subset(visited.to_set(), pids.to_set());
}

/// A set that holds the first process of a path and every child of what it
/// holds holds the whole path.
proof fn lemma_closed_holds_path(records: Seq<ProcessRecord>, visited: Seq<u32>, path: Seq<u32>)
    requires
        is_path(records, path),
        visited.contains(path[0]),
        forall|v: u32, c: u32| visited.contains(v) && child_of(records, v, c) ==> visited.contains(c),
    ensures
        visited.contains(path.last()),
    decreases path.len(),
{
    if path.len() > 1 {
        let shorter = path.drop_last();
        assert forall|k: int| 0 <= k < shorter.len() - 1 implies child_of(
            records,
            #[trigger] shorter[k],
            shorter[k + 1],
        ) by {
            assert(child_of(records, path[k], path[k + 1]));
        }
        lemma_closed_holds_path(records, visited, shorter);
        assert(child_of(records, path[path.len() - 2], path[path.len() - 1]));
    }
}

/// A descendant's child is a descendant.
proof fn lemma_descends_child(records: Seq<ProcessRecord>, root: u32, pid: u32, child: u32)
    requires
        descends(records, root, pid),
        child_of(records, pid, child),
    ensures
        descends(records, root, child),
{
    let path = choose|path: Seq<u32>| is_path(records, path) && path[0] == root && path.last() == pid;
    let longer = path.push(child);
    assert forall|k: int| 0 <= k < longer.len() - 1 implies child_of(
        records,
        #[trigger] longer[k],
        longer[k + 1],
    ) by {
        if k < path.len() - 1 {
            assert(child_of(records, path[k], path[k + 1]));
        }
    }
    assert(is_path(records, longer));
    assert(longer[0] == root && longer.last() == child);
}

/// The process tree under `root_pid`: `None` when no record is of that
/// process; otherwise the root and every descendant, each once, in the
/// order of a depth-first walk from the root that takes a process's last
/// child first (`visit_order`), their memory summed in that order and
/// saturating, and their number.
pub fn aggregate_process_tree(root_pid: u32, records: &[ProcessRecord]) -> (res: Option<ProcessTree>)
    ensures
        match res {
            None => !has_record(records@, root_pid),
            Some(t) => {
                &&& has_record(records@, root_pid)
                &&& t.pids@.no_duplicates()
                &&& t.pids@.len() > 0 && t.pids@[0] == root_pid
                &&& t.pids@ == visit_order(records@, root_pid)
                &&& forall|pid: u32| t.pids@.contains(pid) <==> descends(records@, root_pid, pid)
                &&& t.memory_bytes == memory_total(records@, t.pids@)
                &&& t.process_count == t.pids@.len()
            },
        },
{
    let ghost rs = records@;
    if find_record(records, root_pid).is_none() {
        return None;
    }
    let ghost single = seq![root_pid];
    assert(is_path(rs, single));
    assert(single[0] == root_pid && single.last() == root_pid);
    assert(descends(rs, root_pid, root_pid));
    let mut visited: Vec<u32> = Vec::new();
    let mut stack: Vec<u32> = Vec::new();
    stack.push(root_pid);
    assert(stack@ =~= seq![root_pid]);
    assert(stack@[0] == root_pid);
    assert(visited@ =~= Seq::<u32>::empty());
    let mut memory: u64 = 0;
    assert(memory_total(rs, visited@) == 0);
    while stack.len() > 0
        invariant
            rs == records@,
            has_record(rs, root_pid),
            visited@.no_duplicates(),
            visited@.len() <= rs.len(),
            visited@.len() > 0 ==> visited@[0] == root_pid,
            visited@.len() == 0 ==> stack@ == seq![root_pid],
            visited@.contains(root_pid) || stack@.contains(root_pid),
            forall|k: int| 0 <= k < visited@.len() ==> has_record(rs, #[trigger] visited@[k]),
            forall|k: int| 0 <= k < stack@.len() ==> has_record(rs, #[trigger] stack@[k]),
            forall|k: int| 0 <= k < visited@.len() ==> descends(rs, root_pid, #[trigger] visited@[k]),
            forall|k: int| 0 <= k < stack@.len() ==> descends(rs, root_pid, #[trigger] stack@[k]),
            forall|v: u32, c: u32|
                visited@.contains(v) && child_of(rs, v, c) ==> visited@.contains(c)
                    || stack@.contains(c),
            memory == memory_total(rs, visited@),
            walk(rs, stack@, visited@) == visit_order(rs, root_pid),
        decreases rs.len() - visited@.len(), stack@.len(),
    {
        let ghost before_stack = stack@;
        let pid = stack.pop().unwrap();
        assert(stack@ == before_stack.drop_last());
        assert(before_stack.last() == pid);
        assert(has_record(rs, before_stack[before_stack.len() - 1]));
        assert(descends(rs, root_pid, before_stack[before_stack.len() - 1]));
        assert forall|x: u32| before_stack.contains(x) implies stack@.contains(x) || x == pid by {
            let k = choose|k: int| 0 <= k < before_stack.len() && before_stack[k] == x;
            if k < before_stack.len() - 1 {
                assert(stack@[k] == x);
            }
        }
        if holds_pid(&visited, pid) {
            assert(walk(rs, before_stack, visited@) == walk(rs, stack@, visited@));
            continue;
        }
        let ghost before_visited = visited@;
        let mem = match find_record(records, pid) {
            Some(m) => m,
            None => 0,
        };
        visited.push(pid);
        memory = memory.saturating_add(mem);
        proof {
            assert(visited@.drop_last() =~= before_visited);
            assert forall|i: int, j: int|
                0 <= i < visited@.len() && 0 <= j < visited@.len() && i != j implies visited@[i]
                != visited@[j] by {
                if i == before_visited.len() {
                    assert(before_visited.contains(visited@[j]));
                } else if j == before_visited.len() {
                    assert(before_visited.contains(visited@[i]));
                }
            }
            lemma_visited_bound(rs, visited@);
            if before_visited.len() == 0 {
                assert(before_stack == seq![root_pid]);
            }
            assert forall|x: u32| before_visited.contains(x) implies visited@.contains(x) by {
                let k = choose|k: int| 0 <= k < before_visited.len() && before_visited[k] == x;
                assert(visited@[k] == x);
            }
            assert(visited@[before_visited.len() as int] == pid);
        }
        let ghost mid_stack = stack@;
        let mut i: usize = 0;
        while i < records.len()
            invariant
                rs == records@,
                i <= records.len(),
                mid_stack.len() <= stack@.len(),
                stack@.subrange(0, mid_stack.len() as int) == mid_stack,
                descends(rs, root_pid, pid),
                forall|k: int| 0 <= k < stack@.len() ==> has_record(rs, #[trigger] stack@[k]),
                forall|k: int| 0 <= k < stack@.len() ==> descends(rs, root_pid, #[trigger] stack@[k]),
                forall|k: int| 0 <= k < mid_stack.len() ==> has_record(rs, #[trigger] mid_stack[k]),
                forall|k: int| 0 <= k < mid_stack.len() ==> descends(rs, root_pid, #[trigger] mid_stack[k]),
                forall|j: int|
                    0 <= j < i && #[trigger] rs[j].parent == Some(pid) ==> stack@.contains(rs[j].pid),
                stack@ == mid_stack + children(rs.take(i as int), pid),
            decreases records.len() - i,
        {
            let ghost before = stack@;
            assert(rs.take(i + 1).drop_last() =~= rs.take(i as int));
            assert(rs.take(i + 1).last() == rs[i as int]);
            let is_child = match records[i].parent {
                Some(p) => p == pid,
                None => false,
            };
            if is_child {
                stack.push(records[i].pid);
                proof {
                    assert(child_of(rs, pid, rs[i as int].pid));
                    lemma_descends_child(rs, root_pid, pid, rs[i as int].pid);
                    assert(stack@.subrange(0, mid_stack.len() as int) =~= mid_stack);
                    assert forall|j: int|
                        0 <= j < i + 1 && #[trigger] rs[j].parent == Some(pid) implies stack@.contains(
                        rs[j].pid,
                    ) by {
                        if j < i {
                            let k = choose|k: int| 0 <= k < before.len() && before[k] == rs[j].pid;
                            assert(stack@[k] == rs[j].pid);
                        } else {
                            assert(stack@[before.len() as int] == rs[j].pid);
                        }
                    }
                    assert forall|k: int| 0 <= k < stack@.len() implies has_record(
                        rs,
                        #[trigger] stack@[k],
                    ) by {
                        if k < before.len() {
                            assert(stack@[k] == before[k]);
                        }
                    }
                }
            }
            i += 1;
        }
        proof {
            assert(rs.take(rs.len() as int) =~= rs);
            assert(before_stack.drop_last() == mid_stack);
            assert(walk(rs, before_stack, before_visited) == walk(rs, stack@, visited@));
            assert forall|x: u32| mid_stack.contains(x) implies stack@.contains(x) by {
                let k = choose|k: int| 0 <= k < mid_stack.len() && mid_stack[k] == x;
                assert(stack@.subrange(0, mid_stack.len() as int)[k] == x);
            }
            assert forall|v: u32, c: u32|
                visited@.contains(v) && child_of(rs, v, c) implies visited@.contains(c)
                || stack@.contains(c) by {
                if v == pid {
                    let j = choose|j: int|
                        0 <= j < rs.len() && rs[j].pid == c && rs[j].parent == Some(v);
                    assert(rs[j].parent == Some(pid));
                } else {
                    let k = choose|k: int| 0 <= k < visited@.len() && visited@[k] == v;
                    assert(before_visited[k] == v);
                    assert(before_visited.contains(v));
                }
            }
            assert forall|k: int| 0 <= k < visited@.len() implies descends(
                rs,
                root_pid,
                #[trigger] visited@[k],
            ) by {
                if k < before_visited.len() {
                    assert(visited@[k] == before_visited[k]);
                }
            }
            assert forall|k: int| 0 <= k < visited@.len() implies has_record(
                rs,
                #[trigger] visited@[k],
            ) by {
                if k < before_visited.len() {
                    assert(visited@[k] == before_visited[k]);
                } else {
                    assert(visited@[k] == before_stack[before_stack.len() - 1]);
                }
            }
        }
    }
    proof {
        assert(visited@.contains(root_pid));
        assert forall|pid: u32| visited@.contains(pid) <==> descends(rs, root_pid, pid) by {
            if visited@.contains(pid) {
                let k = choose|k: int| 0 <= k < visited@.len() && visited@[k] == pid;
                assert(descends(rs, root_pid, visited@[k]));
            }
            if descends(rs, root_pid, pid) {
                let path = choose|path: Seq<u32>|
                    is_path(rs, path) && path[0] == root_pid && path.last() == pid;
                lemma_closed_holds_path(rs, visited@, path);
            }
        }
    }
    let count = visited.len();
    Some(ProcessTree { pids: visited, memory_bytes: memory, process_count: count })
}

} // verus!
