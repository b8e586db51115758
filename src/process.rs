use vstd::prelude::*;

verus! {

/// One row of the process table: a process, or a group of processes sharing a name.
/// For a group, `num` counts its members and `cpu` and `mem` are sums over them.
/// `cpu` and `mem` are in hundredths of a percent.
pub struct Proc {
    pub num: u32,
    pub name: String,
    pub commandline: String,
    pub cpu: u64,
    pub mem: u64,
}

/// The mathematical value of a [`Proc`].
pub struct ProcModel {
    pub num: nat,
    pub name: Seq<char>,
    pub commandline: Seq<char>,
    pub cpu: nat,
    pub mem: nat,
}

impl View for Proc {
    type V = ProcModel;

    open spec fn view(&self) -> ProcModel {
        ProcModel {
            num: self.num as nat,
            name: self.name@,
            commandline: self.commandline@,
            cpu: self.cpu as nat,
            mem: self.mem as nat,
        }
    }
}

impl Clone for Proc {
    fn clone(&self) -> (r: Self)
        ensures
            r@ == self@,
    {
        Proc {
            num: self.num,
            name: self.name.clone(),
            commandline: self.commandline.clone(),
            cpu: self.cpu,
            mem: self.mem,
        }
    }
}

/// The views of a sequence of rows.
pub open spec fn models(ps: Seq<Proc>) -> Seq<ProcModel> {
    ps.map_values(|p: Proc| p@)
}

/// Three-way lexicographic comparison of byte strings: negative, zero or positive.
pub open spec fn cmp_bytes(a: Seq<u8>, b: Seq<u8>) -> int
    decreases a.len(),
{
    if a.len() == 0 {
        if b.len() == 0 {
            0
        } else {
            -1
        }
    } else if b.len() == 0 {
        1
    } else if a[0] < b[0] {
        -1
    } else if a[0] > b[0] {
        1
    } else {
        cmp_bytes(a.drop_first(), b.drop_first())
    }
}

/// The byte order of text, as `str` compares it.
pub open spec fn cmp_text(a: Seq<char>, b: Seq<char>) -> int {
    cmp_bytes(vstd::utf8::encode_utf8(a), vstd::utf8::encode_utf8(b))
}

pub proof fn lemma_cmp_bytes_props(a: Seq<u8>, b: Seq<u8>)
    ensures
        -1 <= cmp_bytes(a, b) <= 1,
        cmp_bytes(a, b) == -cmp_bytes(b, a),
        cmp_bytes(a, b) == 0 <==> a == b,
    decreases a.len(),
{
    if a.len() > 0 && b.len() > 0 && a[0] == b[0] {
        lemma_cmp_bytes_props(a.drop_first(), b.drop_first());
        if a.drop_first() == b.drop_first() {
            assert(a =~= seq![a[0]] + a.drop_first());
            assert(b =~= seq![b[0]] + b.drop_first());
        }
    } else if a.len() == 0 && b.len() == 0 {
        assert(a =~= b);
    }
}

pub proof fn lemma_cmp_bytes_trans(a: Seq<u8>, b: Seq<u8>, c: Seq<u8>)
    requires
        cmp_bytes(a, b) < 0,
        cmp_bytes(b, c) < 0,
    ensures
        cmp_bytes(a, c) < 0,
    decreases a.len(),
{
    if a.len() > 0 && b.len() > 0 && c.len() > 0 && a[0] == b[0] && b[0] == c[0] {
        lemma_cmp_bytes_trans(a.drop_first(), b.drop_first(), c.drop_first());
    }
}

/// Equal texts, and only they, compare as zero.
pub proof fn lemma_cmp_text_zero(a: Seq<char>, b: Seq<char>)
    ensures
        cmp_text(a, b) == 0 <==> a == b,
{
    lemma_cmp_bytes_props(vstd::utf8::encode_utf8(a), vstd::utf8::encode_utf8(b));
    vstd::utf8::encode_utf8_decode_utf8(a);
    vstd::utf8::encode_utf8_decode_utf8(b);
}

/// Compares two texts by their UTF-8 bytes, as `str` does.
pub fn compare_str(a: &str, b: &str) -> (r: i8)
    ensures
        r as int == cmp_text(a@, b@),
{
    let x = a.as_bytes();
    let y = b.as_bytes();
    let ghost xs = vstd::utf8::encode_utf8(a@);
    let ghost ys = vstd::utf8::encode_utf8(b@);
    assert(x@ == xs);
    assert(y@ == ys);
    assert(xs.skip(0) =~= xs);
    assert(ys.skip(0) =~= ys);
    let mut i: usize = 0;
    while i < x.len() && i < y.len() && x[i] == y[i]
        invariant
            x@ == xs,
            y@ == ys,
            i <= xs.len(),
            i <= ys.len(),
            cmp_bytes(xs, ys) == cmp_bytes(xs.skip(i as int), ys.skip(i as int)),
        decreases xs.len() - i,
    {
        assert(xs.skip(i as int).drop_first() =~= xs.skip(i + 1));
        assert(ys.skip(i as int).drop_first() =~= ys.skip(i + 1));
        i = i + 1;
    }
    if i == x.len() {
        if i == y.len() {
            0
        } else {
            -1
        }
    } else if i == y.len() {
        1
    } else if x[i] < y[i] {
        -1
    } else {
        1
    }
}

/// Compares two strings by their UTF-8 bytes.
pub fn compare_text(a: &String, b: &String) -> (r: i8)
    ensures
        r as int == cmp_text(a@, b@),
{
    compare_str(a.as_str(), b.as_str())
}

/// Whether two texts are equal.
pub fn same_text(a: &str, b: &str) -> (r: bool)
    ensures
        r == (a@ == b@),
{
    let c = compare_str(a, b);
    proof {
        lemma_cmp_text_zero(a@, b@);
    }
    c == 0
}

/// Some row of `gs` carries `name`.
pub open spec fn has_name(gs: Seq<ProcModel>, name: Seq<char>) -> bool {
    exists|i: int| 0 <= i < gs.len() && #[trigger] gs[i].name == name
}

/// No two rows of `gs` carry the same name.
pub open spec fn names_unique(gs: Seq<ProcModel>) -> bool {
    forall|i: int, j: int| 0 <= i < j < gs.len() ==> gs[i].name != gs[j].name
}

/// Folds one process into the groups: its name's group counts it and adds its usage,
/// or a new group of one starts at the end.
pub open spec fn add_to_groups(gs: Seq<ProcModel>, p: ProcModel) -> Seq<ProcModel> {
    if has_name(gs, p.name) {
        let i = choose|i: int| 0 <= i < gs.len() && #[trigger] gs[i].name == p.name;
        gs.update(
            i,
            ProcModel {
                num: gs[i].num + 1,
                name: gs[i].name,
                commandline: gs[i].commandline,
                cpu: gs[i].cpu + p.cpu,
                mem: gs[i].mem + p.mem,
            },
        )
    } else {
        gs.push(
            ProcModel { num: 1, name: p.name, commandline: p.commandline, cpu: p.cpu, mem: p.mem },
        )
    }
}

/// The processes folded by name, groups in the order in which their names first appear.
pub open spec fn group_by_name(ps: Seq<ProcModel>) -> Seq<ProcModel>
    decreases ps.len(),
{
    if ps.len() == 0 {
        Seq::empty()
    } else {
        add_to_groups(group_by_name(ps.drop_last()), ps.last())
    }
}

/// The usage values of a single process fit in 32 bits, so that group sums fit in 64.
pub open spec fn usage_in_range(ps: Seq<Proc>) -> bool {
    ps.len() <= u32::MAX && forall|i: int|
        0 <= i < ps.len() ==> #[trigger] ps[i].cpu <= u32::MAX && ps[i].mem <= u32::MAX
}

/// Folds the processes into one group per name: `num` is the number of processes with that
/// name, `cpu` and `mem` are the sums of theirs, `commandline` is that of the first of them.
pub fn group_procs(procs: &Vec<Proc>) -> (r: Vec<Proc>)
    requires
        usage_in_range(procs@),
    ensures
        models(r@) == group_by_name(models(procs@)),
        names_unique(models(r@)),
{
    let mut groups: Vec<Proc> = Vec::new();
    let mut k: usize = 0;
    let ghost all = models(procs@);
    assert(all.take(0) =~= Seq::<ProcModel>::empty());
    while k < procs.len()
        invariant
            k <= procs@.len(),
            all == models(procs@),
            usage_in_range(procs@),
            models(groups@) == group_by_name(all.take(k as int)),
            names_unique(models(groups@)),
            forall|t: int|
                0 <= t < groups@.len() ==> #[trigger] groups@[t].num <= k && groups@[t].cpu <= k
                    * u32::MAX && groups@[t].mem <= k * u32::MAX,
        decreases procs@.len() - k,
    {
        let p = &procs[k];
        let ghost gs = models(groups@);
        assert(all.take(k + 1).drop_last() =~= all.take(k as int));
        assert(all.take(k + 1).last() == p@);
        let mut j: usize = 0;
        while j < groups.len() && !(groups[j].name == p.name)
            invariant
                j <= groups@.len(),
                gs == models(groups@),
                forall|t: int| 0 <= t < j ==> gs[t].name != p@.name,
            decreases groups@.len() - j,
        {
            j = j + 1;
        }
        let ghost kk = k as int;
        assert(kk + 1 <= u32::MAX);
        assert(p.cpu <= u32::MAX && p.mem <= u32::MAX);
        if j < groups.len() {
            let g = &groups[j];
            assert(gs[j as int].name == p@.name);
            assert(g.cpu + p.cpu <= (kk + 1) * u32::MAX && (kk + 1) * u32::MAX <= u64::MAX)
                by (nonlinear_arith)
                requires
                    g.cpu <= kk * u32::MAX,
                    p.cpu <= u32::MAX,
                    kk + 1 <= u32::MAX,
            ;
            assert(g.mem + p.mem <= (kk + 1) * u32::MAX && (kk + 1) * u32::MAX <= u64::MAX)
                by (nonlinear_arith)
                requires
                    g.mem <= kk * u32::MAX,
                    p.mem <= u32::MAX,
                    kk + 1 <= u32::MAX,
            ;
            let merged = Proc {
                num: g.num + 1,
                name: g.name.clone(),
                commandline: g.commandline.clone(),
                cpu: g.cpu + p.cpu,
                mem: g.mem + p.mem,
            };
            proof {
                assert(has_name(gs, p@.name));
                let i = choose|i: int| 0 <= i < gs.len() && #[trigger] gs[i].name == p@.name;
                assert(i == j);
            }
            groups.set(j, merged);
            proof {
                assert(models(groups@) =~= add_to_groups(gs, p@));
                assert forall|t: int|
                    0 <= t < groups@.len() implies #[trigger] groups@[t].num <= k + 1
                        && groups@[t].cpu <= (k + 1) * u32::MAX && groups@[t].mem <= (k + 1)
                        * u32::MAX by {
                    if t != j {
                        assert(kk * u32::MAX <= (kk + 1) * u32::MAX) by (nonlinear_arith);
                    }
                }
            }
        } else {
            let fresh = Proc {
                num: 1,
                name: p.name.clone(),
                commandline: p.commandline.clone(),
                cpu: p.cpu,
                mem: p.mem,
            };
            groups.push(fresh);
            proof {
                assert(!has_name(gs, p@.name));
                assert(models(groups@) =~= add_to_groups(gs, p@));
                assert forall|t: int|
                    0 <= t < groups@.len() implies #[trigger] groups@[t].num <= k + 1
                        && groups@[t].cpu <= (k + 1) * u32::MAX && groups@[t].mem <= (k + 1)
                        * u32::MAX by {
                    assert(kk * u32::MAX <= (kk + 1) * u32::MAX) by (nonlinear_arith);
                    assert(u32::MAX <= (kk + 1) * u32::MAX) by (nonlinear_arith)
                        requires
                            kk >= 0,
                    ;
                }
            }
        }
        k = k + 1;
    }
    assert(all.take(procs@.len() as int) =~= all);
    groups
}

/// The column that the table is sorted by.
#[derive(Clone, Copy, Debug, PartialEq, Eq, Structural)]
pub enum SortMethod {
    Cpu,
    Mem,
    Num,
    Command,
}

/// `Up` sorts ascending, `Down` descending.
#[derive(Clone, Copy, Debug, PartialEq, Eq, Structural)]
pub enum SortDirection {
    Up,
    Down,
}

impl Default for SortMethod {
    /// Sorting starts by cpu usage.
    fn default() -> (r: SortMethod)
        ensures
            r == SortMethod::Cpu,
    {
        SortMethod::Cpu
    }
}

impl Default for SortDirection {
    /// Sorting starts in descending order.
    fn default() -> (r: SortDirection)
        ensures
            r == SortDirection::Down,
    {
        SortDirection::Down
    }
}

impl SortDirection {
    /// The opposite direction.
    pub open spec fn flip(self) -> SortDirection {
        match self {
            SortDirection::Up => SortDirection::Down,
            SortDirection::Down => SortDirection::Up,
        }
    }

    /// The opposite direction.
    pub fn not(self) -> (r: SortDirection)
        ensures
            r == self.flip(),
    {
        match self {
            SortDirection::Up => SortDirection::Down,
            SortDirection::Down => SortDirection::Up,
        }
    }
}

/// Three-way comparison of two integers.
pub open spec fn cmp_int(a: int, b: int) -> int {
    if a < b {
        -1
    } else if a > b {
        1
    } else {
        0
    }
}

/// Three-way comparison of two rows by the sort column, ascending: cpu, mem, pid (or count),
/// and the command line (or, for groups, the name).
pub open spec fn key_cmp(a: ProcModel, b: ProcModel, method: SortMethod, grouping: bool) -> int {
    match method {
        SortMethod::Cpu => cmp_int(a.cpu as int, b.cpu as int),
        SortMethod::Mem => cmp_int(a.mem as int, b.mem as int),
        SortMethod::Num => cmp_int(a.num as int, b.num as int),
        SortMethod::Command => if grouping {
            cmp_text(a.name, b.name)
        } else {
            cmp_text(a.commandline, b.commandline)
        },
    }
}

/// Row `i` comes before row `j`: its key comes first in `dir`, or the keys are equal
/// and `i` stood first.
pub open spec fn precedes(
    rows: Seq<ProcModel>,
    i: int,
    j: int,
    method: SortMethod,
    dir: SortDirection,
    grouping: bool,
) -> bool {
    let c = key_cmp(rows[i], rows[j], method, grouping);
    (if dir == SortDirection::Up {
        c < 0
    } else {
        c > 0
    }) || (c == 0 && i < j)
}

/// `x` occurs in `order`.
pub open spec fn lists(order: Seq<usize>, x: int) -> bool {
    exists|a: int| 0 <= a < order.len() && order[a] == x
}

/// `order` lists every index of `rows` once, sorted by [`precedes`].
pub open spec fn is_sort_order(
    rows: Seq<ProcModel>,
    order: Seq<usize>,
    method: SortMethod,
    dir: SortDirection,
    grouping: bool,
) -> bool {
    &&& order.len() == rows.len()
    &&& forall|a: int| 0 <= a < order.len() ==> #[trigger] order[a] < rows.len()
    &&& forall|x: int| 0 <= x < rows.len() ==> #[trigger] lists(order, x)
    &&& forall|a: int, b: int|
        0 <= a < b < order.len() ==> precedes(rows, #[trigger] order[a] as int, #[trigger] order[b] as int, method, dir, grouping)
}

pub proof fn lemma_key_cmp(a: ProcModel, b: ProcModel, c: ProcModel, method: SortMethod, grouping: bool)
    ensures
        -1 <= key_cmp(a, b, method, grouping) <= 1,
        key_cmp(a, b, method, grouping) == -key_cmp(b, a, method, grouping),
        key_cmp(a, a, method, grouping) == 0,
        key_cmp(a, b, method, grouping) < 0 && key_cmp(b, c, method, grouping) < 0 ==> key_cmp(a, c, method, grouping) < 0,
        key_cmp(a, b, method, grouping) == 0 ==> key_cmp(a, c, method, grouping) == key_cmp(b, c, method, grouping),
{
    if method == SortMethod::Command {
        let (x, y, z) = if grouping {
            (vstd::utf8::encode_utf8(a.name), vstd::utf8::encode_utf8(b.name), vstd::utf8::encode_utf8(c.name))
        } else {
            (vstd::utf8::encode_utf8(a.commandline), vstd::utf8::encode_utf8(b.commandline), vstd::utf8::encode_utf8(c.commandline))
        };
        lemma_cmp_bytes_props(x, y);
        lemma_cmp_bytes_props(x, x);
        if cmp_bytes(x, y) < 0 && cmp_bytes(y, z) < 0 {
            lemma_cmp_bytes_trans(x, y, z);
        }
    }
}

/// [`precedes`] is a strict total order on the indices of `rows`.
pub proof fn lemma_precedes_order(
    rows: Seq<ProcModel>,
    i: int,
    j: int,
    k: int,
    method: SortMethod,
    dir: SortDirection,
    grouping: bool,
)
    requires
        0 <= i < rows.len(),
        0 <= j < rows.len(),
        0 <= k < rows.len(),
    ensures
        !precedes(rows, i, i, method, dir, grouping),
        i != j ==> (precedes(rows, i, j, method, dir, grouping) || precedes(rows, j, i, method, dir, grouping)),
        precedes(rows, i, j, method, dir, grouping) ==> !precedes(rows, j, i, method, dir, grouping),
        precedes(rows, i, j, method, dir, grouping) && precedes(rows, j, k, method, dir, grouping) ==> precedes(rows, i, k, method, dir, grouping),
{
    lemma_key_cmp(rows[i], rows[j], rows[k], method, grouping);
    lemma_key_cmp(rows[j], rows[i], rows[k], method, grouping);
    lemma_key_cmp(rows[k], rows[j], rows[i], method, grouping);
    lemma_key_cmp(rows[j], rows[k], rows[i], method, grouping);
    lemma_key_cmp(rows[i], rows[k], rows[j], method, grouping);
    lemma_key_cmp(rows[k], rows[i], rows[j], method, grouping);
}

fn cmp_u64(a: u64, b: u64) -> (r: i8)
    ensures
        r as int == cmp_int(a as int, b as int),
{
    if a < b {
        -1
    } else if a > b {
        1
    } else {
        0
    }
}

/// Three-way comparison of two rows by the sort column.
pub fn compare_rows(a: &Proc, b: &Proc, method: SortMethod, grouping: bool) -> (r: i8)
    ensures
        r as int == key_cmp(a@, b@, method, grouping),
{
    match method {
        SortMethod::Cpu => cmp_u64(a.cpu, b.cpu),
        SortMethod::Mem => cmp_u64(a.mem, b.mem),
        SortMethod::Num => cmp_u64(a.num as u64, b.num as u64),
        SortMethod::Command => if grouping {
            compare_text(&a.name, &b.name)
        } else {
            compare_text(&a.commandline, &b.commandline)
        },
    }
}

fn row_precedes(
    rows: &Vec<Proc>,
    i: usize,
    j: usize,
    method: SortMethod,
    dir: SortDirection,
    grouping: bool,
) -> (r: bool)
    requires
        i < rows@.len(),
        j < rows@.len(),
    ensures
        r == precedes(models(rows@), i as int, j as int, method, dir, grouping),
{
    let c = compare_rows(&rows[i], &rows[j], method, grouping);
    let first = match dir {
        SortDirection::Up => c < 0,
        SortDirection::Down => c > 0,
    };
    first || (c == 0 && i < j)
}

/// The order in which the rows are shown: a stable sort by the sort column in `dir`.
pub fn sort_order(rows: &Vec<Proc>, method: SortMethod, dir: SortDirection, grouping: bool) -> (order: Vec<usize>)
    ensures
        is_sort_order(models(rows@), order@, method, dir, grouping),
{
    let ghost ms = models(rows@);
    let mut order: Vec<usize> = Vec::new();
    let mut k: usize = 0;
    while k < rows.len()
        invariant
            ms == models(rows@),
            k <= rows@.len(),
            order@.len() == k,
            forall|a: int| 0 <= a < order@.len() ==> #[trigger] order@[a] < k,
            forall|x: int| 0 <= x < k ==> #[trigger] lists(order@, x),
            forall|a: int, b: int|
                0 <= a < b < order@.len() ==> precedes(ms, #[trigger] order@[a] as int, #[trigger] order@[b] as int, method, dir, grouping),
        decreases rows@.len() - k,
    {
        let mut pos: usize = order.len();
        while pos > 0 && row_precedes(rows, k, order[pos - 1], method, dir, grouping)
            invariant
                ms == models(rows@),
                k < rows@.len(),
                pos <= order@.len(),
                forall|a: int| 0 <= a < order@.len() ==> #[trigger] order@[a] < k,
                forall|t: int| pos <= t < order@.len() ==> precedes(ms, k as int, #[trigger] order@[t] as int, method, dir, grouping),
            decreases pos,
        {
            pos = pos - 1;
        }
        let ghost old_order = order@;
        proof {
            if pos > 0 {
                let last = old_order[pos - 1] as int;
                lemma_precedes_order(ms, k as int, last, last, method, dir, grouping);
                assert(precedes(ms, last, k as int, method, dir, grouping));
                assert forall|t: int| 0 <= t < pos implies precedes(ms, #[trigger] old_order[t] as int, k as int, method, dir, grouping) by {
                    if t < pos - 1 {
                        assert(precedes(ms, old_order[t] as int, old_order[pos - 1] as int, method, dir, grouping));
                        lemma_precedes_order(ms, old_order[t] as int, last, k as int, method, dir, grouping);
                    }
                }
            }
        }
        order.insert(pos, k);
        proof {
            let o = order@;
            assert(o =~= old_order.insert(pos as int, k));
            assert forall|a: int| 0 <= a < o.len() implies #[trigger] o[a] < k + 1 by {
                if a > pos {
                    assert(o[a] == old_order[a - 1]);
                }
            }
            assert forall|x: int| 0 <= x < k + 1 implies #[trigger] lists(o, x) by {
                if x == k {
                    assert(o[pos as int] == x);
                } else {
                    assert(lists(old_order, x));
                    let a = choose|a: int| 0 <= a < old_order.len() && old_order[a] == x;
                    if a < pos {
                        assert(o[a] == x);
                    } else {
                        assert(o[a + 1] == x);
                    }
                }
            }
            assert forall|a: int, b: int| 0 <= a < b < o.len() implies precedes(ms, #[trigger] o[a] as int, #[trigger] o[b] as int, method, dir, grouping) by {
                if b < pos {
                    assert(precedes(ms, old_order[a] as int, old_order[b] as int, method, dir, grouping));
                } else if b == pos {
                    assert(precedes(ms, old_order[a] as int, k as int, method, dir, grouping));
                } else if a == pos {
                    assert(o[b] == old_order[b - 1]);
                    assert(precedes(ms, k as int, old_order[b - 1] as int, method, dir, grouping));
                } else if a < pos {
                    assert(o[b] == old_order[b - 1]);
                    assert(precedes(ms, old_order[a] as int, old_order[b - 1] as int, method, dir, grouping));
                } else {
                    assert(o[a] == old_order[a - 1]);
                    assert(o[b] == old_order[b - 1]);
                    assert(precedes(ms, old_order[a - 1] as int, old_order[b - 1] as int, method, dir, grouping));
                }
            }
        }
        k = k + 1;
    }
    order
}

/// Sorting is stable: two rows whose sort keys are equal keep the order in which they
/// were listed.
pub proof fn lemma_sort_is_stable(
    rows: Seq<ProcModel>,
    order: Seq<usize>,
    method: SortMethod,
    dir: SortDirection,
    grouping: bool,
    a: int,
    b: int,
)
    requires
        is_sort_order(rows, order, method, dir, grouping),
        0 <= a < b < order.len(),
        key_cmp(rows[order[a] as int], rows[order[b] as int], method, grouping) == 0,
    ensures
        order[a] < order[b],
{
    assert(precedes(rows, order[a] as int, order[b] as int, method, dir, grouping));
}

} // verus!
