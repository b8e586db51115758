use ytop::colorscheme::{convert_color, ColorCode, Colorschemes};
use ytop::conversions::{celsius_to_fahrenheit, convert_localized_string};
use ytop::events::{Command, Event, EventLoop, Key, KeyCode, Modifiers, Redraw};
use ytop::proc_widget::{ProcWidget, SelectedProc};
use ytop::process::{group_procs, sort_order, Proc, SortDirection, SortMethod};
use ytop::ratio::Rational;
use ytop::scheduler::{due_widgets, is_due, Clock};

fn proc(num: u32, name: &str, commandline: &str, cpu: u64, mem: u64) -> Proc {
    Proc {
        num,
        name: name.to_string(),
        commandline: commandline.to_string(),
        cpu,
        mem,
    }
}

fn sample() -> Vec<Proc> {
    vec![
        proc(10, "bash", "/bin/bash", 150, 300),
        proc(11, "vim", "vim notes.txt", 900, 120),
        proc(12, "bash", "/bin/bash -l", 50, 310),
        proc(13, "top", "top -d 1", 400, 80),
        proc(14, "sshd", "sshd: user", 0, 20),
    ]
}

fn ungrouped_table(procs: Vec<Proc>) -> ProcWidget {
    let mut t = ProcWidget::new(1);
    t.toggle_grouping();
    t.update(procs);
    t
}

fn plain(c: char) -> Event {
    Event::Key(Key { code: KeyCode::Char(c), modifiers: Modifiers::Plain })
}

fn ctrl(c: char) -> Event {
    Event::Key(Key { code: KeyCode::Char(c), modifiers: Modifiers::Control })
}

fn r(n: u64, d: u64) -> Rational {
    Rational::new_raw(n, d)
}

#[test]
fn clock_stays_exact_after_many_thirds() {
    let mut clock = Clock::new();
    for _ in 0..10_000 {
        clock.advance(r(1, 3));
    }
    // 10000/3 s = 3333 1/3 s, and 3333 1/3 mod 60 = 33 1/3 = 100/3.
    assert_eq!(clock.seconds.numer, 100);
    assert_eq!(clock.seconds.denom, 3);
}

#[test]
fn clock_wraps_at_sixty() {
    let mut clock = Clock::new();
    for _ in 0..60 {
        clock.advance(r(1, 1));
    }
    assert_eq!(clock.seconds.numer, 0);
    clock.advance(r(1, 4));
    assert_eq!((clock.seconds.numer, clock.seconds.denom), (1, 4));
    for _ in 0..3 {
        clock.advance(r(1, 4));
    }
    assert_eq!((clock.seconds.numer, clock.seconds.denom), (1, 1));
}

#[test]
fn clock_mixed_steps() {
    let mut clock = Clock::new();
    clock.advance(r(1, 2));
    clock.advance(r(1, 3));
    clock.advance(r(59, 1));
    // 1/2 + 1/3 + 59 = 59 5/6 < 60.
    assert_eq!((clock.seconds.numer, clock.seconds.denom), (359, 6));
    clock.advance(r(1, 6));
    assert_eq!(clock.seconds.numer, 0);
}

#[test]
fn due_set_matches_exact_remainder() {
    let intervals = vec![r(1, 1), r(1, 4), r(5, 1), r(60, 1), r(3, 2)];
    let due = due_widgets(r(3, 1), &intervals);
    assert_eq!(due, vec![true, true, false, false, true]);
    let due = due_widgets(r(1, 4), &intervals);
    assert_eq!(due, vec![false, true, false, false, false]);
    let due = due_widgets(r(0, 1), &intervals);
    assert_eq!(due, vec![true, true, true, true, true]);
    assert!(is_due(r(10, 1), r(5, 1)));
    assert!(!is_due(r(11, 1), r(5, 1)));
    assert!(is_due(r(45, 1), r(15, 4)));
}

#[test]
fn every_second_widget_due_every_whole_second() {
    for s in 0..60u64 {
        assert!(is_due(r(s, 1), r(1, 1)));
        assert_eq!(is_due(r(s, 1), r(60, 1)), s == 0);
    }
}

#[test]
fn end_to_end_five_ticks() {
    let mut looper = EventLoop::new(r(1, 1), vec![r(1, 1), r(1, 1), r(5, 1), r(60, 1)]);
    let mut counts = [0u32; 4];
    let first = looper.due_now();
    assert_eq!(first, vec![true, true, true, true]);
    for (c, d) in counts.iter_mut().zip(first.iter()) {
        if *d {
            *c += 1;
        }
    }
    let mut five_due_at = Vec::new();
    for tick in 1..=5 {
        let step = looper.handle(Event::Tick);
        assert_eq!(step.redraw, Redraw::All);
        let due = step.due.expect("a tick reports the due widgets");
        for (c, d) in counts.iter_mut().zip(due.iter()) {
            if *d {
                *c += 1;
            }
        }
        if due[2] {
            five_due_at.push(tick);
        }
    }
    assert_eq!(counts, [6, 6, 2, 1]);
    assert_eq!(five_due_at, vec![5]);
    assert_eq!(looper.clock.seconds.numer, 5);
}

#[test]
fn paused_ticks_are_ignored() {
    let mut looper = EventLoop::new(r(1, 2), vec![r(1, 1)]);
    let step = looper.handle(plain(' '));
    assert_eq!(step.command, Command::TogglePause);
    assert!(looper.paused);
    let step = looper.handle(Event::Tick);
    assert!(step.due.is_none());
    assert_eq!(looper.clock.seconds.numer, 0);
    looper.handle(plain(' '));
    let step = looper.handle(Event::Tick);
    assert_eq!(step.due, Some(vec![false]));
    let step = looper.handle(Event::Tick);
    assert_eq!(step.due, Some(vec![true]));
}

#[test]
fn double_g_jumps_to_top() {
    let mut looper = EventLoop::new(r(1, 1), vec![]);
    assert_eq!(looper.handle(plain('g')).command, Command::Nothing);
    let step = looper.handle(plain('g'));
    assert_eq!(step.command, Command::ScrollTop);
    assert_eq!(step.redraw, Redraw::Proc);
    assert_eq!(looper.previous_key, None);
    // A third g starts a new sequence.
    assert_eq!(looper.handle(plain('g')).command, Command::Nothing);
}

#[test]
fn g_then_other_key_does_not_jump() {
    let mut looper = EventLoop::new(r(1, 1), vec![]);
    looper.handle(plain('g'));
    assert_eq!(looper.handle(plain('j')).command, Command::ScrollDown);
    assert_eq!(looper.handle(plain('g')).command, Command::Nothing);
    looper.handle(plain('g'));
    assert_eq!(looper.handle(plain('x')).command, Command::Nothing);
    assert_eq!(looper.handle(plain('g')).command, Command::Nothing);
}

#[test]
fn double_d_kills() {
    let mut looper = EventLoop::new(r(1, 1), vec![]);
    assert_eq!(looper.handle(plain('d')).command, Command::Nothing);
    assert_eq!(looper.handle(plain('d')).command, Command::KillProcess);
    assert_eq!(looper.handle(ctrl('d')).command, Command::HalfPageDown);
}

#[test]
fn key_bindings() {
    let mut looper = EventLoop::new(r(1, 1), vec![]);
    assert_eq!(looper.handle(plain('q')).command, Command::Quit);
    assert_eq!(looper.handle(ctrl('c')).command, Command::Quit);
    assert_eq!(looper.handle(Event::Terminate).command, Command::Quit);
    assert_eq!(looper.handle(plain('k')).command, Command::ScrollUp);
    assert_eq!(looper.handle(plain('G')).command, Command::ScrollBottom);
    assert_eq!(looper.handle(plain('p')).command, Command::SortByNum);
    assert_eq!(looper.handle(plain('n')).command, Command::SortByCommand);
    assert_eq!(looper.handle(plain('c')).command, Command::SortByCpu);
    assert_eq!(looper.handle(plain('m')).command, Command::SortByMem);
    assert_eq!(looper.handle(ctrl('u')).command, Command::HalfPageUp);
    assert_eq!(looper.handle(ctrl('f')).command, Command::FullPageDown);
    assert_eq!(looper.handle(ctrl('b')).command, Command::FullPageUp);
    let tab = Event::Key(Key { code: KeyCode::Tab, modifiers: Modifiers::Plain });
    assert_eq!(looper.handle(tab).command, Command::ToggleGrouping);
    let h = looper.handle(plain('h'));
    assert_eq!((h.command, h.redraw), (Command::ScaleIn, Redraw::Graphs));
    assert_eq!(looper.handle(Event::MouseScrollDown).command, Command::ScrollDown);
    assert_eq!(looper.handle(Event::MouseScrollUp).command, Command::ScrollUp);
}

#[test]
fn help_menu_toggles_and_escapes() {
    let mut looper = EventLoop::new(r(1, 1), vec![r(1, 1)]);
    let step = looper.handle(plain('?'));
    assert_eq!(step.redraw, Redraw::HelpMenu);
    assert!(looper.show_help_menu);
    let step = looper.handle(Event::Tick);
    assert_eq!(step.redraw, Redraw::Nothing);
    assert_eq!(looper.handle(Event::Resize).redraw, Redraw::HelpMenu);
    assert_eq!(looper.handle(plain('j')).redraw, Redraw::Nothing);
    let esc = Event::Key(Key { code: KeyCode::Esc, modifiers: Modifiers::Plain });
    assert_eq!(looper.handle(esc).redraw, Redraw::All);
    assert!(!looper.show_help_menu);
    assert_eq!(looper.handle(esc).redraw, Redraw::Nothing);
    assert_eq!(looper.handle(Event::Resize).redraw, Redraw::All);
}

#[test]
fn grouping_sums_usage() {
    let procs = vec![
        proc(1, "x", "x -a", 100, 10),
        proc(2, "y", "y", 50, 5),
        proc(3, "x", "x -b", 200, 20),
        proc(4, "x", "x -c", 300, 30),
    ];
    let groups = group_procs(&procs);
    assert_eq!(groups.len(), 2);
    assert_eq!(groups[0].name, "x");
    assert_eq!(groups[0].num, 3);
    assert_eq!(groups[0].cpu, 600);
    assert_eq!(groups[0].mem, 60);
    assert_eq!(groups[0].commandline, "x -a");
    assert_eq!(groups[1].name, "y");
    assert_eq!(groups[1].num, 1);
}

#[test]
fn three_x_processes_make_one_group() {
    let mut t = ProcWidget::new(1);
    t.update(vec![
        proc(1, "x", "x", 100, 0),
        proc(2, "x", "x", 200, 0),
        proc(3, "x", "x", 300, 0),
    ]);
    let rows = t.layout(10);
    assert_eq!(rows.len(), 1);
    assert_eq!(rows[0].name, "x");
    assert_eq!(rows[0].num, 3);
    assert_eq!(rows[0].cpu, 600);
}

#[test]
fn cpu_share_is_divided_among_processors() {
    let mut t = ProcWidget::new(4);
    t.update(vec![proc(1, "a", "a", 400, 7)]);
    assert_eq!(t.procs[0].cpu, 100);
    assert_eq!(t.procs[0].mem, 7);
    let t = ProcWidget::new(0);
    assert_eq!(t.cpu_count, 1);
}

#[test]
fn sort_is_stable_for_equal_keys() {
    let rows = vec![
        proc(1, "a", "a", 5, 0),
        proc(2, "b", "b", 7, 0),
        proc(3, "c", "c", 5, 0),
        proc(4, "d", "d", 7, 0),
        proc(5, "e", "e", 5, 0),
    ];
    let down = sort_order(&rows, SortMethod::Cpu, SortDirection::Down, false);
    assert_eq!(down, vec![1, 3, 0, 2, 4]);
    let up = sort_order(&rows, SortMethod::Cpu, SortDirection::Up, false);
    assert_eq!(up, vec![0, 2, 4, 1, 3]);
}

#[test]
fn sort_by_each_column() {
    let rows = sample();
    assert_eq!(sort_order(&rows, SortMethod::Num, SortDirection::Up, false), vec![0, 1, 2, 3, 4]);
    assert_eq!(sort_order(&rows, SortMethod::Num, SortDirection::Down, false), vec![4, 3, 2, 1, 0]);
    assert_eq!(sort_order(&rows, SortMethod::Mem, SortDirection::Down, false), vec![2, 0, 1, 3, 4]);
    assert_eq!(
        sort_order(&rows, SortMethod::Command, SortDirection::Up, false),
        vec![0, 2, 4, 3, 1]
    );
    assert_eq!(
        sort_order(&rows, SortMethod::Command, SortDirection::Up, true),
        vec![0, 2, 4, 3, 1]
    );
    assert_eq!(sort_order(&Vec::new(), SortMethod::Cpu, SortDirection::Up, false), Vec::<usize>::new());
}

#[test]
fn set_sort_toggles_direction() {
    let mut t = ProcWidget::new(1);
    assert_eq!((t.sort_method, t.sort_direction), (SortMethod::Cpu, SortDirection::Down));
    t.sort_by_cpu();
    assert_eq!(t.sort_direction, SortDirection::Up);
    t.sort_by_cpu();
    assert_eq!(t.sort_direction, SortDirection::Down);
    t.sort_by_mem();
    assert_eq!((t.sort_method, t.sort_direction), (SortMethod::Mem, SortDirection::Down));
    t.sort_by_mem();
    t.sort_by_num();
    assert_eq!((t.sort_method, t.sort_direction), (SortMethod::Num, SortDirection::Down));
    t.sort_by_command();
    assert_eq!(t.sort_method, SortMethod::Command);
}

#[test]
fn selection_follows_process_across_sorts() {
    let mut t = ungrouped_table(sample());
    t.layout(10);
    t.scroll_to(2);
    let rows = t.layout(10);
    let pid = rows[t.selected_row].num;
    for method in 0..4 {
        for _ in 0..2 {
            match method {
                0 => t.sort_by_cpu(),
                1 => t.sort_by_mem(),
                2 => t.sort_by_num(),
                _ => t.sort_by_command(),
            }
            let rows = t.layout(10);
            assert_eq!(rows[t.selected_row].num, pid);
            assert!(matches!(t.selected_proc, Some(SelectedProc::Pid(p)) if p == pid));
        }
    }
}

#[test]
fn selection_follows_group_by_name() {
    let mut t = ProcWidget::new(1);
    t.update(sample());
    t.layout(10);
    t.scroll_to(3);
    let rows = t.layout(10);
    let name = rows[t.selected_row].name.clone();
    t.sort_by_command();
    let rows = t.layout(10);
    assert_eq!(rows[t.selected_row].name, name);
    assert!(matches!(&t.selected_proc, Some(SelectedProc::Name(n)) if *n == name));
}

#[test]
fn selection_clamps_when_last_row_vanishes() {
    let mut t = ungrouped_table(sample());
    t.sort_by_num();
    t.sort_by_num();
    t.layout(10);
    t.scroll_bottom();
    let rows = t.layout(10);
    assert_eq!(t.selected_row, 4);
    let gone = rows[4].num;
    let remaining: Vec<Proc> = sample().into_iter().filter(|p| p.num != gone).collect();
    t.update(remaining);
    let rows = t.layout(10);
    assert_eq!(t.selected_row, 3);
    assert_eq!(rows.len(), 4);
    assert!(matches!(t.selected_proc, Some(SelectedProc::Pid(p)) if p == rows[3].num));
}

#[test]
fn empty_table_has_no_selection() {
    let mut t = ProcWidget::new(2);
    t.scroll_down();
    t.scroll_bottom();
    let rows = t.layout(5);
    assert!(rows.is_empty());
    assert_eq!(t.selected_row, 0);
    assert!(t.selected_proc.is_none());
    assert!(t.kill_process().is_none());
}

#[test]
fn scrolling_clamps_to_rows() {
    let mut t = ungrouped_table(sample());
    t.scroll_up();
    assert_eq!(t.selected_row, 0);
    t.scroll_count(3);
    assert_eq!(t.selected_row, 3);
    t.scroll_count(100);
    assert_eq!(t.selected_row, 4);
    t.scroll_count(-2);
    assert_eq!(t.selected_row, 2);
    t.scroll_count(isize::MIN);
    assert_eq!(t.selected_row, 0);
    t.scroll_count(isize::MAX);
    assert_eq!(t.selected_row, 4);
    t.scroll_top();
    assert_eq!(t.selected_row, 0);
    assert!(t.scrolled);
}

#[test]
fn page_scrolling_uses_view_height() {
    let procs: Vec<Proc> = (0..30).map(|i| proc(i, "p", "p", 0, 0)).collect();
    let mut t = ungrouped_table(procs);
    t.layout(6);
    t.scroll_half_page_down();
    assert_eq!(t.selected_row, 3);
    t.scroll_full_page_down();
    assert_eq!(t.selected_row, 9);
    t.scroll_half_page_up();
    assert_eq!(t.selected_row, 6);
    t.scroll_full_page_up();
    assert_eq!(t.selected_row, 0);
}

#[test]
fn viewport_follows_navigation() {
    let procs: Vec<Proc> = (0..20).map(|i| proc(i, "p", "p", 0, 0)).collect();
    let mut t = ungrouped_table(procs);
    t.sort_by_num();
    t.sort_by_num();
    t.layout(5);
    for _ in 0..7 {
        t.scroll_down();
        t.layout(5);
        assert!(t.view_offset <= t.selected_row);
        assert!(t.selected_row <= t.view_offset + 5 - 1);
    }
    assert_eq!(t.view_offset, 3);
    t.scroll_bottom();
    t.layout(5);
    assert_eq!((t.selected_row, t.view_offset), (19, 15));
    t.scroll_top();
    t.layout(5);
    assert_eq!(t.view_offset, 0);
}

#[test]
fn data_refresh_keeps_viewport() {
    let procs: Vec<Proc> = (0..20).map(|i| proc(i, "p", "p", 0, 0)).collect();
    let mut t = ungrouped_table(procs.clone());
    t.layout(5);
    t.scroll_to(12);
    t.layout(5);
    let offset = t.view_offset;
    assert_eq!(offset, 8);
    t.view_offset = 2;
    t.update(procs);
    t.layout(5);
    assert_eq!(t.view_offset, 2);
}

#[test]
fn kill_targets_selection() {
    let mut t = ungrouped_table(sample());
    t.sort_by_num();
    t.sort_by_num();
    t.layout(10);
    t.scroll_to(1);
    t.layout(10);
    assert!(matches!(t.kill_process(), Some(SelectedProc::Pid(11))));
    t.toggle_grouping();
    assert!(t.grouping);
    assert!(t.kill_process().is_none());
    t.layout(10);
    assert!(matches!(t.kill_process(), Some(SelectedProc::Name(_))));
}

#[test]
fn localized_numbers() {
    assert_eq!(convert_localized_string("3,14"), "3.14");
    assert_eq!(convert_localized_string("1,2,3"), "1.2.3");
    assert_eq!(convert_localized_string("42"), "42");
    assert_eq!(convert_localized_string(""), "");
}

#[test]
fn fahrenheit_conversion() {
    assert_eq!(celsius_to_fahrenheit(0), 32);
    assert_eq!(celsius_to_fahrenheit(100), 212);
    assert_eq!(celsius_to_fahrenheit(-40), -40);
    assert_eq!(celsius_to_fahrenheit(37), 98);
    assert_eq!(celsius_to_fahrenheit(-1), 31);
    assert_eq!(celsius_to_fahrenheit(-3), 27);
}

#[test]
fn colorscheme_names() {
    assert!(matches!(Colorschemes::parse("default"), Colorschemes::Default));
    assert!(matches!(Colorschemes::parse("default-dark"), Colorschemes::DefaultDark));
    assert!(matches!(Colorschemes::parse("monokai"), Colorschemes::Monokai));
    assert!(matches!(Colorschemes::parse("solarized-dark"), Colorschemes::SolarizedDark));
    assert!(matches!(Colorschemes::parse("vice"), Colorschemes::Vice));
    assert!(matches!(Colorschemes::parse("mine"), Colorschemes::Custom(n) if n == "mine"));
    assert!(matches!(Colorschemes::parse("Default"), Colorschemes::Custom(_)));
}

#[test]
fn colors_from_numbers() {
    assert_eq!(convert_color(-1), ColorCode::Reset);
    assert_eq!(convert_color(4), ColorCode::Indexed(4));
    assert_eq!(convert_color(255), ColorCode::Indexed(255));
}
