use macchina::config::{
    create_theme, random_ascii, select_ascii, should_display, theme_from_opt, theme_name, ConfigError, MacchinaColor, Opt,
};
use macchina::grid::Color;
use macchina::read::{contains, cpu_model_name, operating_system, remove_all_exec, trim};
use macchina::readout::ReadoutKey;
use macchina::render::Text;

fn chars(s: &str) -> Vec<char> {
    s.chars().collect()
}

fn text(v: &[char]) -> String {
    v.iter().collect()
}

fn opt() -> Opt {
    Opt {
        palette: false,
        padding: 4,
        spacing: None,
        no_color: false,
        color: None,
        bar: false,
        separator_color: None,
        random_color: false,
        random_sep_color: false,
        hide: None,
        show_only: None,
        doctor: false,
        short_uptime: false,
        short_shell: false,
        no_ascii: false,
        no_box: false,
        box_title: None,
    }
}

#[test]
fn named_colors_map_to_terminal_colors() {
    assert_eq!(MacchinaColor::Red.get_color(), Color::Red);
    assert_eq!(MacchinaColor::Magenta.get_color(), Color::Magenta);
    assert_eq!(MacchinaColor::White.get_color(), Color::White);
    assert_eq!(MacchinaColor::from_index(0), MacchinaColor::Red);
    assert_eq!(MacchinaColor::from_index(7), MacchinaColor::White);
}

#[test]
fn default_theme() {
    let t = theme_from_opt(&opt(), 0, 0).unwrap();
    assert_eq!(t.key_color, Color::Blue);
    assert_eq!(t.separator_color, Color::White);
    assert_eq!(t.padding, 4);
    assert_eq!(t.spacing, 1);
    assert!(t.box_visible);
    assert_eq!(text(&t.box_title), "Hydrogen");
    assert_eq!(text(&t.separator), "-");
    assert_eq!(t.horizontal_margin, 1);
    assert!(!t.ascii_hidden);
}

#[test]
fn explicit_and_random_colors() {
    let mut o = opt();
    o.color = Some(MacchinaColor::Green);
    o.random_sep_color = true;
    o.spacing = Some(3);
    o.box_title = Some(chars("Box"));
    let t = theme_from_opt(&o, 0, 4).unwrap();
    assert_eq!(t.key_color, Color::Green);
    assert_eq!(t.separator_color, Color::Cyan);
    assert_eq!(t.spacing, 3);
    assert_eq!(text(&t.box_title), "Box");
    o.no_color = true;
    let t = theme_from_opt(&o, 0, 4).unwrap();
    assert_eq!(t.key_color, Color::Reset);
    assert_eq!(t.separator_color, Color::Reset);
    let t = create_theme(&o).unwrap();
    assert_eq!(t.key_color, Color::Reset);
}

#[test]
fn random_theme_color_is_a_named_one() {
    let mut o = opt();
    o.random_color = true;
    let named = [Color::Red, Color::Green, Color::Blue, Color::Yellow, Color::Cyan, Color::Magenta, Color::Black, Color::White];
    for _ in 0..20 {
        let t = create_theme(&o).unwrap();
        assert!(named.contains(&t.key_color));
        assert_eq!(t.separator_color, Color::White);
    }
}

#[test]
fn conflicting_options_are_rejected() {
    let mut o = opt();
    o.color = Some(MacchinaColor::Red);
    o.random_color = true;
    assert_eq!(theme_from_opt(&o, 0, 0).err(), Some(ConfigError::KeyColorConflict));
    assert_eq!(create_theme(&o).err(), Some(ConfigError::KeyColorConflict));
    let mut o = opt();
    o.separator_color = Some(MacchinaColor::Red);
    o.random_sep_color = true;
    assert_eq!(theme_from_opt(&o, 0, 0).err(), Some(ConfigError::SeparatorColorConflict));
    let mut o = opt();
    o.show_only = Some(vec![ReadoutKey::Host]);
    o.hide = Some(vec![ReadoutKey::Kernel]);
    assert_eq!(theme_from_opt(&o, 0, 0).err(), Some(ConfigError::ShowAndHide));
    let mut o = opt();
    o.no_box = true;
    o.box_title = Some(chars("x"));
    assert_eq!(theme_from_opt(&o, 0, 0).err(), Some(ConfigError::TitleWithoutBox));
    o.box_title = None;
    assert!(!theme_from_opt(&o, 0, 0).unwrap().box_visible);
}

#[test]
fn displayed_keys() {
    let all = should_display(&opt());
    assert_eq!(all, ReadoutKey::variants());
    assert_eq!(all.len(), 15);
    let mut o = opt();
    o.show_only = Some(vec![ReadoutKey::Shell, ReadoutKey::Host]);
    assert_eq!(should_display(&o), vec![ReadoutKey::Shell, ReadoutKey::Host]);
    let mut o = opt();
    o.hide = Some(vec![ReadoutKey::Host, ReadoutKey::Memory, ReadoutKey::Battery]);
    let shown = should_display(&o);
    assert_eq!(shown.len(), 12);
    assert_eq!(shown[0], ReadoutKey::Machine);
    assert!(!shown.contains(&ReadoutKey::Host));
    assert_eq!(*shown.last().unwrap(), ReadoutKey::ProcessorUsage);
}

#[test]
fn labels() {
    assert_eq!(text(&ReadoutKey::Host.label()), "Host");
    assert_eq!(text(&ReadoutKey::ProcessorUsage.label()), "CPU Load");
    assert_eq!(text(&ReadoutKey::Distribution.label()), "Distro");
}

#[test]
fn first_ascii_is_selected() {
    let arts = vec![Text { lines: vec![] }, Text { lines: vec![vec![]] }];
    assert_eq!(select_ascii(&arts).unwrap().lines.len(), 0);
    assert!(select_ascii(&vec![]).is_none());
}

#[test]
fn os_release_name() {
    assert_eq!(text(&operating_system(&chars("NAME=\"Arch Linux\""))), "Arch Linux");
    assert_eq!(text(&operating_system(&chars("NAME=Gentoo"))), "Gentoo");
    assert_eq!(text(&operating_system(&chars("PRETTY=x"))), "PRETTY=x");
}

#[test]
fn cpuinfo_model_name() {
    assert_eq!(
        text(&cpu_model_name(&chars("model name\t: Intel(R) Core(TM) i7-8550U CPU @ 1.80GHz"))),
        "Intel(R) Core(TM) i7-8550U CPU @ 1.80GHz"
    );
    assert_eq!(text(&cpu_model_name(&chars("  :  "))), "");
}

#[test]
fn text_helpers() {
    assert!(contains(&chars("abcabd"), &chars("abd")));
    assert!(!contains(&chars("abcab"), &chars("abd")));
    assert!(contains(&chars("x"), &chars("")));
    assert_eq!(text(&remove_all_exec(&chars("aXXbXXXc"), &chars("XX"))), "abXc");
    assert_eq!(text(&remove_all_exec(&chars("abc"), &chars(""))), "abc");
    assert_eq!(text(&trim(&chars(" \t a b \n"))), "a b");
    assert_eq!(text(&trim(&chars("\u{3000}x\u{3000}"))), "x");
    assert_eq!(text(&trim(&chars("   "))), "");
}

#[test]
fn theme_files() {
    assert_eq!(theme_name(&chars("Lithium.toml")).map(|n| text(&n)), Some("Lithium".to_string()));
    assert_eq!(theme_name(&chars("a.b.toml")).map(|n| text(&n)), Some("a.b".to_string()));
    assert_eq!(theme_name(&chars(".toml")), None);
    assert_eq!(theme_name(&chars("notes.txt")), None);
    assert_eq!(theme_name(&chars("toml")), None);
}

#[test]
fn random_ascii_picks_one_of_them() {
    let arts = vec![Text { lines: vec![] }, Text { lines: vec![vec![], vec![]] }];
    for _ in 0..10 {
        let n = random_ascii(&arts).unwrap().lines.len();
        assert!(n == 0 || n == 2);
    }
    assert!(random_ascii(&vec![]).is_none());
}
