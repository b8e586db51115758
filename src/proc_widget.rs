use crate::process::{
    group_by_name, group_procs, is_sort_order, models, sort_order, usage_in_range, Proc, ProcModel,
    SortDirection, SortMethod,
};
use crate::ratio::Rational;
use vstd::prelude::*;

verus! {

/// What the selection follows: a process by pid, or (while grouping) a group by name.
pub enum SelectedProc {
    Pid(u32),
    Name(String),
}

impl Clone for SelectedProc {
    fn clone(&self) -> (r: Self)
        ensures
            r@ == self@,
    {
        match self {
            SelectedProc::Pid(p) => SelectedProc::Pid(*p),
            SelectedProc::Name(n) => SelectedProc::Name(n.clone()),
        }
    }
}

/// The mathematical value of a [`SelectedProc`].
pub enum SelectedModel {
    Pid(u32),
    Name(Seq<char>),
}

impl View for SelectedProc {
    type V = SelectedModel;

    open spec fn view(&self) -> SelectedModel {
        match self {
            SelectedProc::Pid(p) => SelectedModel::Pid(*p),
            SelectedProc::Name(n) => SelectedModel::Name(n@),
        }
    }
}

/// The view of an optional selection.
pub open spec fn selection_model(s: Option<SelectedProc>) -> Option<SelectedModel> {
    match s {
        Some(p) => Some(p@),
        None => None,
    }
}

/// `x` clamped into `[0, last]`.
pub open spec fn clamp_row(x: int, last: int) -> int {
    if x < 0 {
        0
    } else if x > last {
        last
    } else {
        x
    }
}

/// The index of the last of `len` rows; zero for no rows.
pub open spec fn last_index(len: int) -> int {
    if len == 0 {
        0
    } else {
        len - 1
    }
}

/// `row` is the row that `sel` follows.
pub open spec fn identifies(row: ProcModel, sel: SelectedModel) -> bool {
    match sel {
        SelectedModel::Pid(p) => row.num == p as nat,
        SelectedModel::Name(n) => row.name == n,
    }
}

/// Some row is the one that `sel` follows.
pub open spec fn listed(rows: Seq<ProcModel>, sel: SelectedModel) -> bool {
    exists|i: int| 0 <= i < rows.len() && identifies(#[trigger] rows[i], sel)
}

/// The rows taken in `order`.
pub open spec fn permuted(rows: Seq<ProcModel>, order: Seq<usize>) -> Seq<ProcModel> {
    Seq::new(order.len(), |a: int| rows[order[a] as int])
}

/// How the selection is resolved against freshly sorted `rows`: the first row that the old
/// selection `sel` follows, if there is one; otherwise the old row index clamped into the
/// rows. The new selection then follows the row there (by name while grouping, by pid
/// otherwise), or nothing when there are no rows.
pub open spec fn resolves(
    rows: Seq<ProcModel>,
    sel: Option<SelectedModel>,
    old_row: int,
    grouping: bool,
    new_row: int,
    new_sel: Option<SelectedModel>,
) -> bool {
    &&& if sel is Some && listed(rows, sel->0) {
        &&& 0 <= new_row < rows.len()
        &&& identifies(rows[new_row], sel->0)
        &&& forall|j: int| 0 <= j < new_row ==> !identifies(#[trigger] rows[j], sel->0)
    } else {
        new_row == if old_row < last_index(rows.len() as int) {
            old_row
        } else {
            last_index(rows.len() as int)
        }
    }
    &&& if rows.len() == 0 {
        new_sel is None
    } else {
        &&& new_sel is Some
        &&& (new_sel->0 is Name) == grouping
        &&& identifies(rows[new_row], new_sel->0)
    }
}

/// The first visible row after the viewport is brought to the selected `row`: unchanged
/// if the row is on screen, else scrolled just far enough to show it.
pub open spec fn repair_offset(row: int, offset: int, height: int) -> int {
    if row + 1 > offset + height {
        row + 1 - height
    } else if row < offset {
        row
    } else {
        offset
    }
}

/// The first visible row after a layout: repaired after a move of the selection, kept as
/// it is otherwise.
pub open spec fn offset_after_layout(scrolled: bool, row: int, offset: int, height: int) -> int {
    if scrolled {
        repair_offset(row, offset, height)
    } else {
        offset
    }
}

/// The state of the process table: what it lists, how it is sorted, which row is selected
/// and which rows are on screen.
pub struct ProcWidget {
    pub update_interval: Rational,
    pub grouping: bool,
    pub selected_row: usize,
    pub selected_proc: Option<SelectedProc>,
    pub sort_method: SortMethod,
    pub sort_direction: SortDirection,
    pub view_offset: usize,
    pub scrolled: bool,
    pub view_height: usize,
    pub cpu_count: u64,
    pub procs: Vec<Proc>,
    pub grouped_procs: Vec<Proc>,
}

fn find_selected(rows: &Vec<Proc>, sel: &SelectedProc) -> (r: Option<usize>)
    ensures
        match r {
            Some(i) => i < rows@.len() && identifies(rows@[i as int]@, sel@) && forall|j: int|
                0 <= j < i ==> !identifies(#[trigger] rows@[j]@, sel@),
            None => !listed(models(rows@), sel@),
        },
{
    let mut i: usize = 0;
    while i < rows.len()
        invariant
            i <= rows@.len(),
            forall|j: int| 0 <= j < i ==> !identifies(#[trigger] rows@[j]@, sel@),
        decreases rows@.len() - i,
    {
        let hit = match sel {
            SelectedProc::Pid(p) => rows[i].num == *p,
            SelectedProc::Name(n) => rows[i].name == *n,
        };
        if hit {
            return Some(i);
        }
        i = i + 1;
    }
    proof {
        assert forall|j: int| 0 <= j < rows@.len() implies !identifies(
            #[trigger] models(rows@)[j],
            sel@,
        ) by {
            assert(models(rows@)[j] == rows@[j]@);
        }
    }
    None
}

fn apply_order(rows: &Vec<Proc>, order: &Vec<usize>) -> (r: Vec<Proc>)
    requires
        forall|a: int| 0 <= a < order@.len() ==> #[trigger] order@[a] < rows@.len(),
    ensures
        models(r@) == permuted(models(rows@), order@),
{
    let mut r: Vec<Proc> = Vec::new();
    let mut a: usize = 0;
    while a < order.len()
        invariant
            a <= order@.len(),
            forall|b: int| 0 <= b < order@.len() ==> #[trigger] order@[b] < rows@.len(),
            r@.len() == a,
            forall|b: int| 0 <= b < a ==> #[trigger] r@[b]@ == rows@[order@[b] as int]@,
        decreases order@.len() - a,
    {
        r.push(rows[order[a]].clone());
        a = a + 1;
    }
    assert(models(r@) =~= permuted(models(rows@), order@));
    r
}

/// Each process's cpu share divided among `n` processors.
pub open spec fn per_cpu(ps: Seq<ProcModel>, n: nat) -> Seq<ProcModel> {
    ps.map_values(
        |p: ProcModel|
            ProcModel {
                num: p.num,
                name: p.name,
                commandline: p.commandline,
                cpu: p.cpu / n,
                mem: p.mem,
            },
    )
}

impl ProcWidget {
    /// How often the widget refreshes, in seconds.
    pub fn get_update_interval(&self) -> (r: Rational)
        ensures
            r == self.update_interval,
    {
        self.update_interval
    }

    /// The processor count is positive.
    pub open spec fn wf(&self) -> bool {
        self.cpu_count > 0
    }

    /// The rows currently listed, before sorting.
    pub open spec fn current_rows(&self) -> Seq<ProcModel> {
        if self.grouping {
            models(self.grouped_procs@)
        } else {
            models(self.procs@)
        }
    }

    /// The number of rows currently listed: groups while grouping, processes otherwise.
    pub open spec fn row_count(&self) -> int {
        if self.grouping {
            self.grouped_procs@.len() as int
        } else {
            self.procs@.len() as int
        }
    }

    /// Everything but the selection, the scroll flag and the grouping flag is unchanged.
    pub open spec fn same_data(&self, other: &ProcWidget) -> bool {
        &&& self.update_interval == other.update_interval
        &&& self.sort_method == other.sort_method
        &&& self.sort_direction == other.sort_direction
        &&& self.view_offset == other.view_offset
        &&& self.view_height == other.view_height
        &&& self.cpu_count == other.cpu_count
        &&& self.procs@ == other.procs@
        &&& self.grouped_procs@ == other.grouped_procs@
    }

    /// The state after a move of the selection to row `row`.
    pub open spec fn moved_to(&self, old: &ProcWidget, row: int) -> bool {
        &&& self.same_data(old)
        &&& self.grouping == old.grouping
        &&& self.selected_row == row
        &&& self.selected_proc is None
        &&& self.scrolled
    }

    /// A table with no rows, grouping on, sorted by cpu in descending order, refreshed every
    /// second. A `cpu_count` of zero counts as one.
    pub fn new(cpu_count: u64) -> (r: ProcWidget)
        ensures
            r.update_interval.numer == 1,
            r.update_interval.denom == 1,
            r.grouping,
            r.selected_row == 0,
            r.selected_proc is None,
            r.sort_method == SortMethod::Cpu,
            r.sort_direction == SortDirection::Down,
            r.view_offset == 0,
            !r.scrolled,
            r.view_height == 0,
            r.cpu_count == if cpu_count == 0 { 1 } else { cpu_count },
            r.procs@.len() == 0,
            r.grouped_procs@.len() == 0,
            r.wf(),
    {
        ProcWidget {
            update_interval: Rational::from_integer(1),
            grouping: true,
            selected_row: 0,
            selected_proc: None,
            sort_method: SortMethod::Cpu,
            sort_direction: SortDirection::Down,
            view_offset: 0,
            scrolled: false,
            view_height: 0,
            cpu_count: if cpu_count == 0 { 1 } else { cpu_count },
            procs: Vec::new(),
            grouped_procs: Vec::new(),
        }
    }

    fn last_row(&self) -> (r: usize)
        ensures
            r == last_index(self.row_count()),
    {
        let n = if self.grouping {
            self.grouped_procs.len()
        } else {
            self.procs.len()
        };
        if n == 0 {
            0
        } else {
            n - 1
        }
    }

    fn move_down(&mut self, n: usize)
        ensures
            final(self).moved_to(
                old(self),
                clamp_row(old(self).selected_row + n, last_index(old(self).row_count())),
            ),
    {
        let last = self.last_row();
        self.selected_row = if self.selected_row >= last || n >= last - self.selected_row {
            last
        } else {
            self.selected_row + n
        };
        self.selected_proc = None;
        self.scrolled = true;
    }

    fn move_up(&mut self, n: usize)
        ensures
            final(self).moved_to(
                old(self),
                clamp_row(old(self).selected_row - n, last_index(old(self).row_count())),
            ),
    {
        let last = self.last_row();
        self.selected_row = if n >= self.selected_row {
            0
        } else if self.selected_row - n > last {
            last
        } else {
            self.selected_row - n
        };
        self.selected_proc = None;
        self.scrolled = true;
    }

    /// Moves the selection `count` rows down (up, for a negative `count`), clamped to the
    /// rows listed.
    pub fn scroll_count(&mut self, count: isize)
        ensures
            final(self).moved_to(
                old(self),
                clamp_row(old(self).selected_row + count, last_index(old(self).row_count())),
            ),
    {
        if count < 0 {
            let n = (-(count + 1)) as usize + 1;
            self.move_up(n);
        } else {
            self.move_down(count as usize);
        }
    }

    /// Moves the selection to row `row`, or to the last row if there are fewer.
    pub fn scroll_to(&mut self, row: usize)
        ensures
            final(self).moved_to(old(self), clamp_row(row as int, last_index(old(self).row_count()))),
    {
        let last = self.last_row();
        self.selected_row = if row > last {
            last
        } else {
            row
        };
        self.selected_proc = None;
        self.scrolled = true;
    }

    /// Moves the selection one row up.
    pub fn scroll_up(&mut self)
        ensures
            final(self).moved_to(
                old(self),
                clamp_row(old(self).selected_row - 1, last_index(old(self).row_count())),
            ),
    {
        self.move_up(1);
    }

    /// Moves the selection one row down.
    pub fn scroll_down(&mut self)
        ensures
            final(self).moved_to(
                old(self),
                clamp_row(old(self).selected_row + 1, last_index(old(self).row_count())),
            ),
    {
        self.move_down(1);
    }

    /// Moves the selection to the first row.
    pub fn scroll_top(&mut self)
        ensures
            final(self).moved_to(old(self), 0),
    {
        self.scroll_to(0);
    }

    /// Moves the selection to the last row.
    pub fn scroll_bottom(&mut self)
        ensures
            final(self).moved_to(old(self), last_index(old(self).row_count())),
    {
        let last = self.last_row();
        self.scroll_to(last);
    }

    /// Moves the selection half a page down.
    pub fn scroll_half_page_down(&mut self)
        ensures
            final(self).moved_to(
                old(self),
                clamp_row(
                    old(self).selected_row + old(self).view_height / 2,
                    last_index(old(self).row_count()),
                ),
            ),
    {
        self.move_down(self.view_height / 2);
    }

    /// Moves the selection half a page up.
    pub fn scroll_half_page_up(&mut self)
        ensures
            final(self).moved_to(
                old(self),
                clamp_row(
                    old(self).selected_row - old(self).view_height / 2,
                    last_index(old(self).row_count()),
                ),
            ),
    {
        self.move_up(self.view_height / 2);
    }

    /// Moves the selection a page down.
    pub fn scroll_full_page_down(&mut self)
        ensures
            final(self).moved_to(
                old(self),
                clamp_row(
                    old(self).selected_row + old(self).view_height,
                    last_index(old(self).row_count()),
                ),
            ),
    {
        self.move_down(self.view_height);
    }

    /// Moves the selection a page up.
    pub fn scroll_full_page_up(&mut self)
        ensures
            final(self).moved_to(
                old(self),
                clamp_row(
                    old(self).selected_row - old(self).view_height,
                    last_index(old(self).row_count()),
                ),
            ),
    {
        self.move_up(self.view_height);
    }

    /// Switches between listing processes and listing groups; the selection is derived anew.
    pub fn toggle_grouping(&mut self)
        ensures
            final(self).same_data(old(self)),
            final(self).grouping == !old(self).grouping,
            final(self).selected_row == old(self).selected_row,
            final(self).selected_proc is None,
            final(self).scrolled == old(self).scrolled,
    {
        self.grouping = !self.grouping;
        self.selected_proc = None;
    }

    /// What a kill acts on: the selected process, or every process of the selected group's
    /// name. `None` while nothing is selected.
    pub fn kill_process(&self) -> (r: Option<SelectedProc>)
        ensures
            selection_model(r) == selection_model(self.selected_proc),
    {
        match &self.selected_proc {
            Some(s) => Some(s.clone()),
            None => None,
        }
    }

    /// Sorts by `method`; choosing the current column again flips the direction, a new
    /// column starts out descending.
    pub fn sort(&mut self, method: SortMethod)
        ensures
            final(self).sort_method == method,
            final(self).sort_direction == if old(self).sort_method == method {
                old(self).sort_direction.flip()
            } else {
                SortDirection::Down
            },
            final(self).same_data_but_sort(old(self)),
    {
        if self.sort_method == method {
            self.sort_direction = self.sort_direction.not();
        } else {
            self.sort_method = method;
            self.sort_direction = SortDirection::Down;
        }
    }

    /// Sorts by pid (or, while grouping, by count).
    pub fn sort_by_num(&mut self)
        ensures
            final(self).sort_method == SortMethod::Num,
            final(self).sort_direction == if old(self).sort_method == SortMethod::Num {
                old(self).sort_direction.flip()
            } else {
                SortDirection::Down
            },
            final(self).same_data_but_sort(old(self)),
    {
        self.sort(SortMethod::Num);
    }

    /// Sorts by command line (or, while grouping, by name).
    pub fn sort_by_command(&mut self)
        ensures
            final(self).sort_method == SortMethod::Command,
            final(self).sort_direction == if old(self).sort_method == SortMethod::Command {
                old(self).sort_direction.flip()
            } else {
                SortDirection::Down
            },
            final(self).same_data_but_sort(old(self)),
    {
        self.sort(SortMethod::Command);
    }

    /// Sorts by cpu usage.
    pub fn sort_by_cpu(&mut self)
        ensures
            final(self).sort_method == SortMethod::Cpu,
            final(self).sort_direction == if old(self).sort_method == SortMethod::Cpu {
                old(self).sort_direction.flip()
            } else {
                SortDirection::Down
            },
            final(self).same_data_but_sort(old(self)),
    {
        self.sort(SortMethod::Cpu);
    }

    /// Sorts by memory usage.
    pub fn sort_by_mem(&mut self)
        ensures
            final(self).sort_method == SortMethod::Mem,
            final(self).sort_direction == if old(self).sort_method == SortMethod::Mem {
                old(self).sort_direction.flip()
            } else {
                SortDirection::Down
            },
            final(self).same_data_but_sort(old(self)),
    {
        self.sort(SortMethod::Mem);
    }

    /// Everything but the sort column and direction is unchanged.
    pub open spec fn same_data_but_sort(&self, other: &ProcWidget) -> bool {
        &&& self.update_interval == other.update_interval
        &&& self.grouping == other.grouping
        &&& self.selected_row == other.selected_row
        &&& selection_model(self.selected_proc) == selection_model(other.selected_proc)
        &&& self.view_offset == other.view_offset
        &&& self.scrolled == other.scrolled
        &&& self.view_height == other.view_height
        &&& self.cpu_count == other.cpu_count
        &&& self.procs@ == other.procs@
        &&& self.grouped_procs@ == other.grouped_procs@
    }

    /// Takes in a fresh list of processes, whose cpu shares count one processor as 100%,
    /// and rebuilds the groups. Selection and viewport are left as they are.
    pub fn update(&mut self, samples: Vec<Proc>)
        requires
            old(self).wf(),
            usage_in_range(samples@),
        ensures
            final(self).wf(),
            models(final(self).procs@) == per_cpu(models(samples@), old(self).cpu_count as nat),
            models(final(self).grouped_procs@) == group_by_name(models(final(self).procs@)),
            final(self).update_interval == old(self).update_interval,
            final(self).grouping == old(self).grouping,
            final(self).selected_row == old(self).selected_row,
            selection_model(final(self).selected_proc) == selection_model(old(self).selected_proc),
            final(self).sort_method == old(self).sort_method,
            final(self).sort_direction == old(self).sort_direction,
            final(self).view_offset == old(self).view_offset,
            final(self).scrolled == old(self).scrolled,
            final(self).view_height == old(self).view_height,
            final(self).cpu_count == old(self).cpu_count,
    {
        let n = self.cpu_count;
        let mut procs: Vec<Proc> = Vec::new();
        let mut k: usize = 0;
        while k < samples.len()
            invariant
                n > 0,
                k <= samples@.len(),
                usage_in_range(samples@),
                procs@.len() == k,
                forall|i: int| 0 <= i < k ==> #[trigger] procs@[i]@ == per_cpu(models(samples@), n as nat)[i],
                forall|i: int| 0 <= i < k ==> #[trigger] procs@[i].cpu <= u32::MAX && procs@[i].mem <= u32::MAX,
            decreases samples@.len() - k,
        {
            let p = &samples[k];
            procs.push(Proc {
                num: p.num,
                name: p.name.clone(),
                commandline: p.commandline.clone(),
                cpu: p.cpu / n,
                mem: p.mem,
            });
            k = k + 1;
        }
        assert(models(procs@) =~= per_cpu(models(samples@), n as nat));
        let grouped = group_procs(&procs);
        self.procs = procs;
        self.grouped_procs = grouped;
    }

    /// Prepares the table for display in `view_height` rows: sorts the listed rows, resolves
    /// the selection against them and, after a move of the selection, scrolls the viewport
    /// to it. Returns the sorted rows.
    pub fn layout(&mut self, view_height: usize) -> (r: Vec<Proc>)
        ensures
            exists|order: Seq<usize>|
                is_sort_order(old(self).current_rows(), order, old(self).sort_method, old(self).sort_direction, old(self).grouping)
                && models(r@) == permuted(old(self).current_rows(), order),
            resolves(
                models(r@),
                selection_model(old(self).selected_proc),
                old(self).selected_row as int,
                old(self).grouping,
                final(self).selected_row as int,
                selection_model(final(self).selected_proc),
            ),
            !final(self).scrolled,
            final(self).view_offset == offset_after_layout(
                old(self).scrolled,
                final(self).selected_row as int,
                old(self).view_offset as int,
                view_height as int,
            ),
            final(self).view_height == view_height,
            final(self).update_interval == old(self).update_interval,
            final(self).grouping == old(self).grouping,
            final(self).sort_method == old(self).sort_method,
            final(self).sort_direction == old(self).sort_direction,
            final(self).cpu_count == old(self).cpu_count,
            final(self).procs@ == old(self).procs@,
            final(self).grouped_procs@ == old(self).grouped_procs@,
    {
        let ghost cur = self.current_rows();
        self.view_height = view_height;
        let order = if self.grouping {
            sort_order(&self.grouped_procs, self.sort_method, self.sort_direction, true)
        } else {
            sort_order(&self.procs, self.sort_method, self.sort_direction, false)
        };
        let rows = if self.grouping {
            apply_order(&self.grouped_procs, &order)
        } else {
            apply_order(&self.procs, &order)
        };
        let found = match &self.selected_proc {
            Some(sel) => find_selected(&rows, sel),
            None => None,
        };
        let last: usize = if rows.len() == 0 {
            0
        } else {
            rows.len() - 1
        };
        let row = match found {
            Some(i) => i,
            None => if self.selected_row < last {
                self.selected_row
            } else {
                last
            },
        };
        proof {
            if self.selected_proc is Some && found is None {
                assert(!listed(models(rows@), self.selected_proc->0@));
            }
        }
        self.selected_row = row;
        self.selected_proc = if rows.len() == 0 {
            None
        } else if self.grouping {
            Some(SelectedProc::Name(rows[row].name.clone()))
        } else {
            Some(SelectedProc::Pid(rows[row].num))
        };
        if self.scrolled {
            self.scrolled = false;
            if row >= self.view_offset && row - self.view_offset >= view_height {
                self.view_offset = row + 1 - view_height;
            } else if row < self.view_offset {
                self.view_offset = row;
            }
        }
        proof {
            assert(is_sort_order(cur, order@, self.sort_method, self.sort_direction, self.grouping));
            assert(models(rows@) == permuted(cur, order@));
            if rows@.len() > 0 {
                assert(models(rows@)[row as int] == rows@[row as int]@);
            }
        }
        rows
    }
}

/// Re-sorting keeps the selection on the same process: for every sort column and
/// direction, while the selected pid is still listed, the resolved row shows that process
/// and the selection still follows its pid.
pub proof fn lemma_selection_survives_sort(
    procs: Seq<ProcModel>,
    order: Seq<usize>,
    method: SortMethod,
    dir: SortDirection,
    pid: u32,
    i: int,
    old_row: int,
    new_row: int,
    new_sel: Option<SelectedModel>,
)
    requires
        is_sort_order(procs, order, method, dir, false),
        0 <= i < procs.len(),
        procs[i].num == pid,
        resolves(permuted(procs, order), Some(SelectedModel::Pid(pid)), old_row, false, new_row, new_sel),
    ensures
        0 <= new_row < procs.len(),
        permuted(procs, order)[new_row].num == pid,
        new_sel == Some(SelectedModel::Pid(pid)),
{
    let rows = permuted(procs, order);
    assert(crate::process::lists(order, i));
    let a = choose|a: int| 0 <= a < order.len() && order[a] == i;
    assert(identifies(rows[a], SelectedModel::Pid(pid)));
    assert(listed(rows, SelectedModel::Pid(pid)));
}

/// After any move of the selection, laying the table out in `height >= 1` rows shows the
/// selected row: `offset <= row <= offset + height - 1`.
pub proof fn lemma_viewport_shows_selection(row: int, offset: int, height: int)
    requires
        0 <= row,
        0 <= offset,
        height >= 1,
    ensures
        0 <= offset_after_layout(true, row, offset, height) <= row,
        row <= offset_after_layout(true, row, offset, height) + height - 1,
{
}

/// A layout with no move of the selection since the last one, as after a plain refresh of
/// the data, leaves the first visible row where it was.
pub proof fn lemma_refresh_keeps_viewport(row: int, offset: int, height: int)
    ensures
        offset_after_layout(false, row, offset, height) == offset,
{
}

/// When the selected process is gone and the selection was on the last row, it moves to
/// the new last row.
pub proof fn lemma_vanished_last_row_clamps(
    rows: Seq<ProcModel>,
    sel: SelectedModel,
    old_row: int,
    grouping: bool,
    new_row: int,
    new_sel: Option<SelectedModel>,
)
    requires
        rows.len() > 0,
        old_row >= rows.len() - 1,
        !listed(rows, sel),
        resolves(rows, Some(sel), old_row, grouping, new_row, new_sel),
    ensures
        new_row == rows.len() - 1,
        new_sel is Some,
        identifies(rows[new_row], new_sel->0),
{
}

} // verus!
