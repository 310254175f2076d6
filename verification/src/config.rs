//! The daemon's configuration: which sockets to serve, and how.

use std::collections::HashSet;
use vstd::prelude::*;

use crate::daemon_error::DaemonError;
use crate::os_error::OsError;

verus! {

/// One socket to serve.
#[derive(Debug)]
pub struct SocketConfig {
    /// The path of the socket.
    pub socket_name: String,
    /// The interface to capture from.
    pub interface: String,
    /// The size of a block of the ring.
    pub block_size: u32,
    /// How many blocks the ring has.
    pub num_blocks: u32,
    /// How long the kernel fills a block at most.
    pub block_timeout_millis: u32,
    /// How packets are distributed over the fanout.
    pub fanout_type: u16,
    /// How many capture sockets share the packets.
    pub fanout_size: u16,
    /// The fanout group, or zero to have one chosen.
    pub fanout_id: u16,
    /// Who may connect, or nobody in particular.
    pub user: String,
    /// Which group may connect, or none in particular.
    pub group: String,
    /// The filter, or none.
    pub filter: String,
}

impl Clone for SocketConfig {
    fn clone(&self) -> (r: SocketConfig)
        ensures
            r == *self,
    {
        SocketConfig {
            socket_name: self.socket_name.clone(),
            interface: self.interface.clone(),
            block_size: self.block_size,
            num_blocks: self.num_blocks,
            block_timeout_millis: self.block_timeout_millis,
            fanout_type: self.fanout_type,
            fanout_size: self.fanout_size,
            fanout_id: self.fanout_id,
            user: self.user.clone(),
            group: self.group.clone(),
            filter: self.filter.clone(),
        }
    }
}

/// What came of reading the configuration file.
#[derive(Debug)]
pub enum ConfigFile {
    Unreadable(OsError),
    /// It is no list of sockets, for the reason given.
    Unparsable(String),
    Parsed(Vec<SocketConfig>),
}

/// What is wrong with a socket's configuration, if anything.
pub open spec fn fault(c: SocketConfig) -> Option<Seq<char>> {
    if c.block_size == 0 {
        Some(": BlockSize must be > 0"@)
    } else if c.num_blocks == 0 {
        Some(": NumBlocks must be > 0"@)
    } else if c.interface@.len() == 0 {
        Some(": Interface must be specified"@)
    } else {
        None
    }
}

/// The configuration with a fanout of at least one.
pub open spec fn with_fanout(c: SocketConfig) -> SocketConfig {
    if c.fanout_size == 0 {
        SocketConfig { fanout_size: 1, ..c }
    } else {
        c
    }
}

/// Whether socket `i` is the first at fault.
pub open spec fn first_fault(cfgs: Seq<SocketConfig>, i: int) -> bool {
    &&& 0 <= i < cfgs.len()
    &&& fault(cfgs[i]) is Some
    &&& forall|j: int| 0 <= j < i ==> fault(#[trigger] cfgs[j]) is None
}

fn check(c: &SocketConfig) -> (r: Result<(), DaemonError>)
    ensures
        match r {
            Ok(()) => fault(*c) is None,
            Err(e) => fault(*c) matches Some(text) && (e matches DaemonError::ConfigValidate(s)
                && s@ == c.socket_name@ + text),
        },
{
    let text: &str = if c.block_size == 0 {
        ": BlockSize must be > 0"
    } else if c.num_blocks == 0 {
        ": NumBlocks must be > 0"
    } else if c.interface.as_str().is_empty() {
        ": Interface must be specified"
    } else {
        return Ok(());
    };
    let mut s = c.socket_name.clone();
    s.append(text);
    Err(DaemonError::ConfigValidate(s))
}

/// The sockets to serve, from what came of reading the file at `path`.
pub fn load(path: &str, file: ConfigFile) -> (r: Result<Vec<SocketConfig>, DaemonError>)
    ensures
        match file {
            ConfigFile::Unreadable(e) => r matches Err(DaemonError::ConfigRead { path: p, source })
                && p@ == path@ && source == e,
            ConfigFile::Unparsable(why) => r matches Err(
                DaemonError::ConfigParse { path: p, reason },
            ) && p@ == path@ && reason == why,
            ConfigFile::Parsed(cfgs) => match r {
                Ok(v) => v@ == cfgs@.map_values(|c: SocketConfig| with_fanout(c)) && forall|i: int|
                    0 <= i < cfgs@.len() ==> fault(#[trigger] cfgs@[i]) is None,
                Err(e) => e matches DaemonError::ConfigValidate(s) && exists|i: int| #[trigger]
                    first_fault(cfgs@, i) && s@ == cfgs@[i].socket_name@ + fault(cfgs@[i])->0,
            },
        },
{
    let mut cfgs: Vec<SocketConfig> = match file {
        ConfigFile::Unreadable(source) => return Err(
            DaemonError::ConfigRead { path: path.to_owned(), source },
        ),
        ConfigFile::Unparsable(reason) => return Err(
            DaemonError::ConfigParse { path: path.to_owned(), reason },
        ),
        ConfigFile::Parsed(cfgs) => cfgs,
    };
    let ghost given = cfgs@;
    let mut i: usize = 0;
    while i < cfgs.len()
        invariant
            i <= cfgs@.len(),
            cfgs@.len() == given.len(),
            file == (ConfigFile::Parsed(file->Parsed_0)),
            given == file->Parsed_0@,
            forall|j: int| 0 <= j < i ==> #[trigger] cfgs@[j] == with_fanout(given[j]),
            forall|j: int| i <= j < cfgs@.len() ==> #[trigger] cfgs@[j] == given[j],
            forall|j: int| 0 <= j < i ==> fault(#[trigger] given[j]) is None,
        decreases cfgs@.len() - i,
    {
        if cfgs[i].fanout_size == 0 {
            cfgs[i].fanout_size = 1;
        }
        assert(cfgs@[i as int] == with_fanout(given[i as int]));
        if let Err(e) = check(&cfgs[i]) {
            assert(first_fault(given, i as int));
            return Err(e);
        }
        i = i + 1;
    }
    assert(cfgs@ =~= given.map_values(|c: SocketConfig| with_fanout(c)));
    Ok(cfgs)
}

/// Whether socket `j` has the name of an earlier one.
pub open spec fn repeats_name(cfgs: Seq<SocketConfig>, j: int) -> bool {
    exists|i: int| 0 <= i < j && #[trigger] cfgs[i].socket_name@ == cfgs[j].socket_name@
}

/// Whether socket `j` is the first that has the name of an earlier one.
pub open spec fn first_repeated_name(cfgs: Seq<SocketConfig>, j: int) -> bool {
    &&& 0 <= j < cfgs.len()
    &&& repeats_name(cfgs, j)
    &&& forall|i: int| 0 <= i < j ==> !#[trigger] repeats_name(cfgs, i)
}

fn name_is_new(cfgs: &[SocketConfig], j: usize) -> (r: bool)
    requires
        j < cfgs@.len(),
    ensures
        r == !repeats_name(cfgs@, j as int),
{
    let mut i: usize = 0;
    while i < j
        invariant
            i <= j < cfgs@.len(),
            forall|k: int|
                0 <= k < i ==> #[trigger] cfgs@[k].socket_name@ != cfgs@[j as int].socket_name@,
        decreases j - i,
    {
        if cfgs[i].socket_name == cfgs[j].socket_name {
            assert(cfgs@[i as int].socket_name@ == cfgs@[j as int].socket_name@);
            return false;
        }
        i = i + 1;
    }
    true
}

/// Refuses two sockets with one name.
pub fn check_socket_names(cfgs: &[SocketConfig]) -> (r: Result<(), DaemonError>)
    ensures
        match r {
            Ok(()) => forall|j: int| 0 <= j < cfgs@.len() ==> !#[trigger] repeats_name(cfgs@, j),
            Err(e) => e matches DaemonError::DuplicateSocketName(s) && exists|j: int| #[trigger]
                first_repeated_name(cfgs@, j) && s@ == cfgs@[j].socket_name@,
        },
{
    let mut j: usize = 0;
    while j < cfgs.len()
        invariant
            j <= cfgs@.len(),
            forall|i: int| 0 <= i < j ==> !#[trigger] repeats_name(cfgs@, i),
        decreases cfgs@.len() - j,
    {
        if !name_is_new(cfgs, j) {
            assert(first_repeated_name(cfgs@, j as int));
            return Err(DaemonError::DuplicateSocketName(cfgs[j].socket_name.clone()));
        }
        j = j + 1;
    }
    Ok(())
}

/// The fanout identifiers that the sockets ask for; zero where they ask for none.
pub open spec fn asked(cfgs: Seq<SocketConfig>) -> Seq<u16> {
    cfgs.map_values(|c: SocketConfig| c.fanout_id)
}

/// Whether socket `j` asks for the identifier of an earlier one.
pub open spec fn repeats_id(ids: Seq<u16>, j: int) -> bool {
    ids[j] > 0 && exists|i: int| 0 <= i < j && #[trigger] ids[i] == ids[j]
}

/// Whether socket `j` is the first that asks for the identifier of an earlier one.
pub open spec fn first_repeated_id(ids: Seq<u16>, j: int) -> bool {
    &&& 0 <= j < ids.len()
    &&& repeats_id(ids, j)
    &&& forall|i: int| 0 <= i < j ==> !#[trigger] repeats_id(ids, i)
}

/// Whether no two sockets ask for one identifier.
pub open spec fn no_repeated_id(ids: Seq<u16>) -> bool {
    forall|j: int| 0 <= j < ids.len() ==> !#[trigger] repeats_id(ids, j)
}

/// Whether an identifier is free when `taken` are given out: nobody asks for it and
/// it is not given out.
pub open spec fn is_free(ids: Seq<u16>, taken: Seq<u16>, id: u16) -> bool {
    id > 0 && !ids.contains(id) && !taken.contains(id)
}

/// Whether `id` is right for socket `k` when `taken` are given out to those before
/// it: the one that it asks for, or the least that is free where it asks for none.
pub open spec fn is_right(ids: Seq<u16>, taken: Seq<u16>, k: int, id: u16) -> bool {
    if ids[k] > 0 {
        id == ids[k]
    } else {
        &&& is_free(ids, taken, id)
        &&& forall|less: u16| less < id ==> !is_free(ids, taken, less)
    }
}

/// Whether each socket has the right identifier.
pub open spec fn assigned(ids: Seq<u16>, out: Seq<u16>) -> bool {
    &&& out.len() == ids.len()
    &&& forall|k: int| 0 <= k < ids.len() ==> is_right(ids, out.take(k), k, #[trigger] out[k])
}

/// How many sockets ask for an identifier.
spec fn asking(ids: Seq<u16>) -> nat
    decreases ids.len(),
{
    if ids.len() == 0 {
        0
    } else {
        asking(ids.drop_last()) + if ids.last() > 0 {
            1nat
        } else {
            0nat
        }
    }
}

proof fn lemma_asking_steps(ids: Seq<u16>, k: int)
    requires
        0 <= k < ids.len(),
    ensures
        asking(ids.take(k + 1)) == asking(ids.take(k)) + if ids[k] > 0 {
            1nat
        } else {
            0nat
        },
{
    assert(ids.take(k + 1).drop_last() =~= ids.take(k));
}

/// There are no more than so many identifiers.
proof fn lemma_ids_at_most(claimed: Set<u16>)
    requires
        claimed.finite(),
        !claimed.contains(0),
    ensures
        claimed.len() <= 65535,
        (forall|id: u16| id > 0 ==> claimed.contains(id)) ==> claimed.len() == 65535,
{
    let f = |id: u16| id as int;
    let image = claimed.map(f);
    let all = vstd::set_lib::set_int_range(1, 65536);
    vstd::set_lib::lemma_int_range(1, 65536);
    vstd::set_lib::lemma_map_size(claimed, image, f);
    assert(image.subset_of(all));
    vstd::set_lib::lemma_len_subset(image, all);
    if forall|id: u16| id > 0 ==> claimed.contains(id) {
        assert forall|v: int| all.contains(v) implies image.contains(v) by {
            assert(claimed.contains(v as u16));
            assert(f(v as u16) == v);
        }
        assert(image =~= all);
    }
}

/// Chooses the fanout identifiers: a socket gets the one that it asks for, and the
/// others get the least free ones, in order.
pub fn assign_fanout_ids(cfgs: &[SocketConfig]) -> (r: Result<Vec<u16>, DaemonError>)
    ensures
        match r {
            Ok(out) => no_repeated_id(asked(cfgs@)) && cfgs@.len() <= 65535 && assigned(
                asked(cfgs@),
                out@,
            ),
            Err(DaemonError::DuplicateFanoutId(id)) => exists|j: int| #[trigger]
                first_repeated_id(asked(cfgs@), j) && id == cfgs@[j].fanout_id,
            Err(e) => e == DaemonError::FanoutIdsExhausted && no_repeated_id(asked(cfgs@))
                && cfgs@.len() > 65535,
        },
{
    broadcast use vstd::std_specs::hash::group_hash_axioms;

    let ghost ids = asked(cfgs@);
    let mut claimed: HashSet<u16> = HashSet::new();
    let mut j: usize = 0;
    while j < cfgs.len()
        invariant
            j <= cfgs@.len(),
            ids == asked(cfgs@),
            claimed@.finite(),
            forall|id: u16|
                #[trigger] claimed@.contains(id) <==> id > 0 && ids.take(j as int).contains(id),
            claimed@.len() == asking(ids.take(j as int)),
            forall|i: int| 0 <= i < j ==> !#[trigger] repeats_id(ids, i),
        decreases cfgs@.len() - j,
    {
        let id: u16 = cfgs[j].fanout_id;
        let ghost before = ids.take(j as int);
        let ghost after = ids.take(j + 1);
        proof {
            lemma_asking_steps(ids, j as int);
            assert(after =~= before.push(id));
            assert(ids[j as int] == id);
            if before.contains(id) {
                let i = before.index_of(id);
                assert(ids[i] == id);
            }
            if repeats_id(ids, j as int) {
                let i = choose|i: int| 0 <= i < j && #[trigger] ids[i] == ids[j as int];
                assert(before[i] == id);
            }
            assert forall|x: u16| after.contains(x) <==> before.contains(x) || x == id by {
                if before.contains(x) {
                    assert(after[before.index_of(x)] == x);
                }
                assert(after[j as int] == id);
            }
        }
        if id > 0 && !claimed.insert(id) {
            assert(first_repeated_id(ids, j as int));
            return Err(DaemonError::DuplicateFanoutId(id));
        }
        j = j + 1;
    }
    assert(ids.take(j as int) =~= ids);
    let mut auto: u16 = 1;
    let mut out: Vec<u16> = Vec::new();
    let mut k: usize = 0;
    while k < cfgs.len()
        invariant
            k <= cfgs@.len(),
            ids == asked(cfgs@),
            no_repeated_id(ids),
            out@.len() == k,
            auto > 0,
            claimed@.finite(),
            forall|id: u16|
                #[trigger] claimed@.contains(id) <==> id > 0 && (ids.contains(id) || out@.contains(id)),
            forall|id: u16| 0 < id < auto ==> claimed@.contains(id),
            claimed@.len() == asking(ids) + k - asking(ids.take(k as int)),
            forall|n: int| 0 <= n < k ==> is_right(ids, out@.take(n), n, #[trigger] out@[n]),
        decreases cfgs@.len() - k,
    {
        let id: u16 = cfgs[k].fanout_id;
        let ghost taken = out@;
        proof {
            lemma_asking_steps(ids, k as int);
            assert(ids[k as int] == id);
            assert(taken.take(k as int) =~= taken);
        }
        if id > 0 {
            out.push(id);
        } else {
            while claimed.contains(&auto)
                invariant
                    k < cfgs@.len(),
                    ids == asked(cfgs@),
                    ids[k as int] == 0,
                    no_repeated_id(ids),
                    auto > 0,
                    claimed@.finite(),
                    !claimed@.contains(0),
                    forall|id: u16| 0 < id < auto ==> claimed@.contains(id),
                    claimed@.len() == asking(ids) + k - asking(ids.take(k as int)),
                decreases u16::MAX - auto,
            {
                match auto.checked_add(1) {
                    Some(next) => {
                        auto = next;
                    },
                    None => {
                        proof {
                            lemma_ids_at_most(claimed@);
                            lemma_asking_bound(ids, k as int);
                        }
                        return Err(DaemonError::FanoutIdsExhausted);
                    },
                }
            }
            assert forall|less: u16| less < auto implies !is_free(ids, taken, less) by {
                assert(less > 0 ==> claimed@.contains(less));
            }
            out.push(auto);
            claimed.insert(auto);
            auto = auto.saturating_add(1);
        }
        proof {
            assert forall|x: u16| out@.contains(x) <==> taken.contains(x) || x == out@[k as int] by {
                if taken.contains(x) {
                    assert(out@[taken.index_of(x)] == x);
                }
                assert(out@[k as int] == out@.last());
            }
            assert(ids.contains(ids[k as int]));
            assert forall|n: int| 0 <= n < k + 1 implies is_right(
                ids,
                out@.take(n),
                n,
                #[trigger] out@[n],
            ) by {
                assert(out@.take(n) =~= taken.take(n));
                if n < k {
                    assert(out@[n] == taken[n]);
                }
            }
        }
        k = k + 1;
    }
    proof {
        assert(ids.take(k as int) =~= ids);
        lemma_ids_at_most(claimed@);
    }
    Ok(out)
}

/// From socket `k` on, at most so many sockets ask for an identifier, one fewer
/// where socket `k` asks for none.
proof fn lemma_asking_bound(ids: Seq<u16>, k: int)
    requires
        0 <= k < ids.len(),
        ids[k] == 0,
    ensures
        asking(ids) - asking(ids.take(k)) < ids.len() - k,
    decreases ids.len(),
{
    if k == ids.len() - 1 {
        assert(ids.drop_last() =~= ids.take(k));
    } else {
        lemma_asking_bound(ids.drop_last(), k);
        assert(ids.drop_last().take(k) =~= ids.take(k));
    }
}

/// No two sockets get one fanout identifier, and none gets zero.
pub proof fn law_fanout_ids_differ(ids: Seq<u16>, out: Seq<u16>)
    requires
        no_repeated_id(ids),
        assigned(ids, out),
    ensures
        out.no_duplicates(),
        !out.contains(0),
{
    assert forall|i: int, j: int| 0 <= i < j < out.len() implies out[i] != out[j] by {
        if out[i] == out[j] {
            if ids[j] > 0 && ids[i] > 0 {
                assert(repeats_id(ids, j));
            } else if ids[j] > 0 {
                assert(ids.contains(ids[j]));
            } else {
                assert(out.take(j)[i] == out[i]);
                assert(out.take(j).contains(out[j]));
            }
        }
    }
    assert forall|k: int| 0 <= k < out.len() implies out[k] != 0 by {}
}

/// The choice of fanout identifiers is determined by what the sockets ask for.
pub proof fn law_fanout_ids_determined(ids: Seq<u16>, a: Seq<u16>, b: Seq<u16>)
    requires
        assigned(ids, a),
        assigned(ids, b),
    ensures
        a == b,
{
    lemma_same_up_to(ids, a, b, ids.len());
    assert(a.take(ids.len() as int) =~= a);
    assert(b.take(ids.len() as int) =~= b);
}

proof fn lemma_same_up_to(ids: Seq<u16>, a: Seq<u16>, b: Seq<u16>, n: nat)
    requires
        assigned(ids, a),
        assigned(ids, b),
        n <= ids.len(),
    ensures
        a.take(n as int) == b.take(n as int),
    decreases n,
{
    if n > 0 {
        let k = n - 1;
        lemma_same_up_to(ids, a, b, k as nat);
        if ids[k] == 0 {
            if a[k] < b[k] {
                assert(!is_free(ids, b.take(k), a[k]));
            } else if b[k] < a[k] {
                assert(!is_free(ids, a.take(k), b[k]));
            }
        }
        assert(a[k] == b[k]);
        assert(a.take(n as int) =~= a.take(k).push(a[k]));
        assert(b.take(n as int) =~= b.take(k).push(b[k]));
    }
}

/// A socket can be served exactly if its blocks have a size, its ring has blocks, and it
/// names an interface. What is wrong is said of the first of these that is not so.
pub proof fn law_what_a_socket_needs(c: SocketConfig)
    ensures
        fault(c) is None <==> c.block_size > 0 && c.num_blocks > 0 && c.interface@.len() > 0,
        c.block_size == 0 ==> fault(c) == Some(": BlockSize must be > 0"@),
        c.block_size > 0 && c.num_blocks == 0 ==> fault(c) == Some(": NumBlocks must be > 0"@),
        c.block_size > 0 && c.num_blocks > 0 && c.interface@.len() == 0 ==> fault(c) == Some(
            ": Interface must be specified"@,
        ),
{
}

/// A fanout of none is taken as one; any other fanout, and everything else that a socket is
/// configured with, is taken as it is.
pub proof fn law_fanout_is_at_least_one(c: SocketConfig)
    ensures
        ({
            let d = with_fanout(c);
            &&& c.fanout_size > 0 ==> d.fanout_size == c.fanout_size
            &&& c.fanout_size == 0 ==> d.fanout_size == 1
            &&& d.socket_name == c.socket_name
            &&& d.interface == c.interface
            &&& d.block_size == c.block_size
            &&& d.num_blocks == c.num_blocks
            &&& d.block_timeout_millis == c.block_timeout_millis
            &&& d.fanout_type == c.fanout_type
            &&& d.fanout_id == c.fanout_id
            &&& d.user == c.user
            &&& d.group == c.group
            &&& d.filter == c.filter
            &&& fault(d) == fault(c)
        }),
{
}

/// The faults are looked for in order: the first socket at fault is the one before which
/// every socket has blocks and an interface, and which itself lacks something. There is at
/// most one.
pub proof fn law_first_fault_is_the_first(cfgs: Seq<SocketConfig>, i: int, j: int)
    requires
        first_fault(cfgs, i),
    ensures
        0 <= i < cfgs.len(),
        cfgs[i].block_size == 0 || cfgs[i].num_blocks == 0 || cfgs[i].interface@.len() == 0,
        0 <= j < i ==> cfgs[j].block_size > 0 && cfgs[j].num_blocks > 0
            && cfgs[j].interface@.len() > 0,
        first_fault(cfgs, j) ==> i == j,
{
    if 0 <= j < i {
        assert(fault(cfgs[j]) is None);
    }
    if 0 <= i < j && first_fault(cfgs, j) {
        assert(fault(cfgs[i]) is None);
    }
}

/// No socket repeats a name exactly if all names differ; the one that is named is one of
/// two with one name, and there are no two before it.
pub proof fn law_names_must_differ(cfgs: Seq<SocketConfig>, j: int)
    ensures
        (forall|k: int| 0 <= k < cfgs.len() ==> !#[trigger] repeats_name(cfgs, k)) <==> (forall|
            a: int,
            b: int,
        |
            0 <= a < b < cfgs.len() ==> #[trigger] cfgs[a].socket_name@
                != #[trigger] cfgs[b].socket_name@),
        first_repeated_name(cfgs, j) ==> 0 <= j < cfgs.len() && (exists|a: int|
            0 <= a < j && #[trigger] cfgs[a].socket_name@ == cfgs[j].socket_name@) && (forall|
            a: int,
            b: int,
        |
            0 <= a < b < j ==> #[trigger] cfgs[a].socket_name@ != #[trigger] cfgs[b].socket_name@),
{
    if forall|k: int| 0 <= k < cfgs.len() ==> !#[trigger] repeats_name(cfgs, k) {
        assert forall|a: int, b: int| 0 <= a < b < cfgs.len() implies #[trigger] cfgs[a].socket_name@
            != #[trigger] cfgs[b].socket_name@ by {
            assert(!repeats_name(cfgs, b));
        }
    }
    if first_repeated_name(cfgs, j) {
        assert forall|a: int, b: int| 0 <= a < b < j implies #[trigger] cfgs[a].socket_name@
            != #[trigger] cfgs[b].socket_name@ by {
            assert(!repeats_name(cfgs, b));
        }
    }
}

/// No socket repeats an identifier exactly if all identifiers that are asked for differ.
/// Zero asks for none. The one that is named is asked for twice, and none is asked for
/// twice before it.
pub proof fn law_asked_identifiers_must_differ(ids: Seq<u16>, j: int)
    ensures
        no_repeated_id(ids) <==> (forall|a: int, b: int|
            0 <= a < b < ids.len() && ids[a] > 0 ==> #[trigger] ids[a] != #[trigger] ids[b]),
        first_repeated_id(ids, j) ==> 0 <= j < ids.len() && ids[j] > 0 && (exists|a: int|
            0 <= a < j && #[trigger] ids[a] == ids[j]) && (forall|a: int, b: int|
            0 <= a < b < j && ids[a] > 0 ==> #[trigger] ids[a] != #[trigger] ids[b]),
{
    if no_repeated_id(ids) {
        assert forall|a: int, b: int| 0 <= a < b < ids.len() && ids[a] > 0 implies #[trigger] ids[a]
            != #[trigger] ids[b] by {
            assert(!repeats_id(ids, b));
        }
    } else {
        let b = choose|b: int| 0 <= b < ids.len() && #[trigger] repeats_id(ids, b);
        let a = choose|a: int| 0 <= a < b && #[trigger] ids[a] == ids[b];
        assert(ids[a] == ids[b]);
    }
    if first_repeated_id(ids, j) {
        assert forall|a: int, b: int| 0 <= a < b < j && ids[a] > 0 implies #[trigger] ids[a]
            != #[trigger] ids[b] by {
            assert(!repeats_id(ids, b));
        }
    }
}

/// Who asks for a fanout identifier gets that one. Who asks for none gets the least one,
/// from 1 on, that nobody asks for and no earlier socket got: every lesser one is asked for
/// or given out already.
pub proof fn law_who_gets_which_identifier(cfgs: Seq<SocketConfig>, out: Seq<u16>, k: int, less: u16)
    requires
        assigned(asked(cfgs), out),
        0 <= k < cfgs.len(),
    ensures
        out.len() == cfgs.len(),
        asked(cfgs).len() == cfgs.len(),
        asked(cfgs)[k] == cfgs[k].fanout_id,
        cfgs[k].fanout_id > 0 ==> out[k] == cfgs[k].fanout_id,
        cfgs[k].fanout_id == 0 ==> {
            &&& out[k] > 0
            &&& forall|i: int| 0 <= i < cfgs.len() ==> #[trigger] cfgs[i].fanout_id != out[k]
            &&& forall|i: int| 0 <= i < k ==> #[trigger] out[i] != out[k]
            &&& 0 < less < out[k] ==> (exists|i: int|
                0 <= i < cfgs.len() && #[trigger] cfgs[i].fanout_id == less) || (exists|i: int|
                0 <= i < k && #[trigger] out[i] == less)
        },
{
    let ids = asked(cfgs);
    let taken = out.take(k);
    assert(is_right(ids, taken, k, out[k]));
    if cfgs[k].fanout_id == 0 {
        assert forall|i: int| 0 <= i < cfgs.len() implies #[trigger] cfgs[i].fanout_id != out[k] by {
            assert(ids[i] == cfgs[i].fanout_id);
            assert(ids.contains(ids[i]));
        }
        assert forall|i: int| 0 <= i < k implies #[trigger] out[i] != out[k] by {
            assert(taken[i] == out[i]);
            assert(taken.contains(taken[i]));
        }
        if 0 < less < out[k] {
            assert(!is_free(ids, taken, less));
            if ids.contains(less) {
                let i = ids.index_of(less);
                assert(cfgs[i].fanout_id == less);
            } else {
                let i = taken.index_of(less);
                assert(out[i] == less);
            }
        }
    }
}

} // verus!
