//! Command-line options and the theme they resolve to.
use vstd::prelude::*;
use crate::grid::Color;
use crate::read::{matches_at, occurs_at, remove_all, remove_all_exec};
use crate::readout::{all_keys, ReadoutKey};
use crate::render::Text;
use crate::theme::Theme;

verus! {

/// A color that can be named on the command line.
#[derive(Clone, Copy, Debug, PartialEq, Eq, Structural)]
pub enum MacchinaColor {
    Red,
    Green,
    Blue,
    Yellow,
    Cyan,
    Magenta,
    Black,
    White,
}

/// The terminal color that a named color stands for.
pub open spec fn color_of(c: MacchinaColor) -> Color {
    match c {
        MacchinaColor::Red => Color::Red,
        MacchinaColor::Green => Color::Green,
        MacchinaColor::Blue => Color::Blue,
        MacchinaColor::Yellow => Color::Yellow,
        MacchinaColor::Cyan => Color::Cyan,
        MacchinaColor::Magenta => Color::Magenta,
        MacchinaColor::Black => Color::Black,
        MacchinaColor::White => Color::White,
    }
}

/// The named colors, in the order in which the command line lists them.
pub open spec fn color_choices() -> Seq<MacchinaColor> {
    seq![
        MacchinaColor::Red,
        MacchinaColor::Green,
        MacchinaColor::Blue,
        MacchinaColor::Yellow,
        MacchinaColor::Cyan,
        MacchinaColor::Magenta,
        MacchinaColor::Black,
        MacchinaColor::White,
    ]
}

/// How many colors can be named.
pub const COLOR_COUNT: usize = 8;

impl MacchinaColor {
    /// The terminal color that this name stands for.
    pub fn get_color(&self) -> (r: Color)
        ensures
            r == color_of(*self),
    {
        match self {
            MacchinaColor::Red => Color::Red,
            MacchinaColor::Green => Color::Green,
            MacchinaColor::Blue => Color::Blue,
            MacchinaColor::Yellow => Color::Yellow,
            MacchinaColor::Cyan => Color::Cyan,
            MacchinaColor::Magenta => Color::Magenta,
            MacchinaColor::Black => Color::Black,
            MacchinaColor::White => Color::White,
        }
    }

    /// The named color at position `i` of the list.
    pub fn from_index(i: usize) -> (r: MacchinaColor)
        requires
            i < COLOR_COUNT,
        ensures
            r == color_choices()[i as int],
    {
        match i {
            0 => MacchinaColor::Red,
            1 => MacchinaColor::Green,
            2 => MacchinaColor::Blue,
            3 => MacchinaColor::Yellow,
            4 => MacchinaColor::Cyan,
            5 => MacchinaColor::Magenta,
            6 => MacchinaColor::Black,
            _ => MacchinaColor::White,
        }
    }
}

/// The options that shape one run.
pub struct Opt {
    pub palette: bool,
    pub padding: u16,
    pub spacing: Option<u16>,
    pub no_color: bool,
    pub color: Option<MacchinaColor>,
    pub bar: bool,
    pub separator_color: Option<MacchinaColor>,
    pub random_color: bool,
    pub random_sep_color: bool,
    pub hide: Option<Vec<ReadoutKey>>,
    pub show_only: Option<Vec<ReadoutKey>>,
    pub doctor: bool,
    pub short_uptime: bool,
    pub short_shell: bool,
    pub no_ascii: bool,
    pub no_box: bool,
    pub box_title: Option<Vec<char>>,
}

/// Options that cannot be given together.
#[derive(Clone, Copy, Debug, PartialEq, Eq, Structural)]
pub enum ConfigError {
    /// A key color and a random key color.
    KeyColorConflict,
    /// A separator color and a random separator color.
    SeparatorColorConflict,
    /// Both a list of readouts to show and one to hide.
    ShowAndHide,
    /// A box title while the box is hidden.
    TitleWithoutBox,
}

/// The first conflict among the options, in the order of `ConfigError`.
pub open spec fn conflict_of(opt: Opt) -> Option<ConfigError> {
    if opt.color is Some && opt.random_color {
        Some(ConfigError::KeyColorConflict)
    } else if opt.separator_color is Some && opt.random_sep_color {
        Some(ConfigError::SeparatorColorConflict)
    } else if opt.show_only is Some && opt.hide is Some {
        Some(ConfigError::ShowAndHide)
    } else if opt.box_title is Some && opt.no_box {
        Some(ConfigError::TitleWithoutBox)
    } else {
        None
    }
}

/// Spacing on each side of the separator when none is given.
pub const DEFAULT_SPACING: u16 = 1;

/// Margin inside the border when the box is shown.
pub const DEFAULT_MARGIN: u16 = 1;

pub open spec fn default_title() -> Seq<char> {
    seq!['H', 'y', 'd', 'r', 'o', 'g', 'e', 'n']
}

pub open spec fn default_separator() -> Seq<char> {
    seq!['-']
}

/// Key color of the theme for `opt`, with `key_pick` the position of the
/// color drawn when a random one is asked for.
pub open spec fn key_color_spec(opt: Opt, key_pick: int) -> Color {
    if opt.no_color {
        Color::Reset
    } else if opt.random_color {
        color_of(color_choices()[key_pick])
    } else {
        match opt.color {
            Some(c) => color_of(c),
            None => Color::Blue,
        }
    }
}

/// Separator color of the theme for `opt`, with `sep_pick` the position of
/// the color drawn when a random one is asked for.
pub open spec fn separator_color_spec(opt: Opt, sep_pick: int) -> Color {
    if opt.no_color {
        Color::Reset
    } else if opt.random_sep_color {
        color_of(color_choices()[sep_pick])
    } else {
        match opt.separator_color {
            Some(c) => color_of(c),
            None => Color::White,
        }
    }
}

/// `t` is the theme that `opt` asks for, given the two random picks.
pub open spec fn is_theme_of(t: Theme, opt: Opt, key_pick: int, sep_pick: int) -> bool {
    &&& t.key_color == key_color_spec(opt, key_pick)
    &&& t.separator_color == separator_color_spec(opt, sep_pick)
    &&& t.separator@ == default_separator()
    &&& t.padding == opt.padding
    &&& t.spacing == match opt.spacing {
        Some(s) => s,
        None => DEFAULT_SPACING,
    }
    &&& t.box_visible == !opt.no_box
    &&& t.box_title@ == match opt.box_title {
        Some(b) => b@,
        None => default_title(),
    }
    &&& t.horizontal_margin == DEFAULT_MARGIN
    &&& t.vertical_margin == DEFAULT_MARGIN
    &&& t.ascii_hidden == opt.no_ascii
}

/// The theme that `opt` asks for, with `key_pick` and `sep_pick` the
/// positions of the colors used where a random one is asked for; fails on
/// options that conflict.
pub fn theme_from_opt(opt: &Opt, key_pick: usize, sep_pick: usize) -> (r: Result<Theme, ConfigError>)
    requires
        key_pick < COLOR_COUNT,
        sep_pick < COLOR_COUNT,
    ensures
        r is Err <==> conflict_of(*opt) is Some,
        r matches Err(e) ==> conflict_of(*opt) == Some(e),
        r matches Ok(t) ==> is_theme_of(t, *opt, key_pick as int, sep_pick as int),
{
    if opt.color.is_some() && opt.random_color {
        return Err(ConfigError::KeyColorConflict);
    }
    if opt.separator_color.is_some() && opt.random_sep_color {
        return Err(ConfigError::SeparatorColorConflict);
    }
    if opt.show_only.is_some() && opt.hide.is_some() {
        return Err(ConfigError::ShowAndHide);
    }
    if opt.box_title.is_some() && opt.no_box {
        return Err(ConfigError::TitleWithoutBox);
    }
    let key_color = if opt.no_color {
        Color::Reset
    } else if opt.random_color {
        MacchinaColor::from_index(key_pick).get_color()
    } else {
        match opt.color {
            Some(c) => c.get_color(),
            None => Color::Blue,
        }
    };
    let separator_color = if opt.no_color {
        Color::Reset
    } else if opt.random_sep_color {
        MacchinaColor::from_index(sep_pick).get_color()
    } else {
        match opt.separator_color {
            Some(c) => c.get_color(),
            None => Color::White,
        }
    };
    let spacing = match opt.spacing {
        Some(s) => s,
        None => DEFAULT_SPACING,
    };
    let box_title = match &opt.box_title {
        Some(b) => copy_chars(b),
        None => vec!['H', 'y', 'd', 'r', 'o', 'g', 'e', 'n'],
    };
    let separator = vec!['-'];
    assert(separator@ =~= default_separator());
    assert(opt.box_title is None ==> box_title@ =~= default_title());
    Ok(
        Theme {
            key_color,
            separator_color,
            separator,
            padding: opt.padding,
            spacing,
            box_visible: !opt.no_box,
            box_title,
            horizontal_margin: DEFAULT_MARGIN,
            vertical_margin: DEFAULT_MARGIN,
            ascii_hidden: opt.no_ascii,
        },
    )
}

/// Relies on `rand::Rng::gen_range` over `rand::thread_rng()`: a number
/// below `n`, which must not be zero.
#[verifier::external_body]
fn random_below(n: usize) -> (r: usize)
    requires
        n > 0,
    ensures
        r < n,
{
    rand::Rng::gen_range(&mut rand::thread_rng(), 0..n)
}

/// The theme that `opt` asks for, with colors drawn at random where it asks
/// for random ones; fails on options that conflict.
pub fn create_theme(opt: &Opt) -> (r: Result<Theme, ConfigError>)
    ensures
        r is Err <==> conflict_of(*opt) is Some,
        r matches Err(e) ==> conflict_of(*opt) == Some(e),
        r matches Ok(t) ==> exists|k: int, s: int|
            0 <= k < COLOR_COUNT && 0 <= s < COLOR_COUNT && is_theme_of(t, *opt, k, s),
{
    let key_pick = if opt.random_color { random_below(COLOR_COUNT) } else { 0 };
    let sep_pick = if opt.random_sep_color { random_below(COLOR_COUNT) } else { 0 };
    let r = theme_from_opt(opt, key_pick, sep_pick);
    proof {
        if r is Ok {
            assert(is_theme_of(r->Ok_0, *opt, key_pick as int, sep_pick as int));
        }
    }
    r
}

/// A copy of the glyphs.
fn copy_chars(v: &Vec<char>) -> (r: Vec<char>)
    ensures
        r@ == v@,
{
    let mut r: Vec<char> = Vec::new();
    let mut i: usize = 0;
    while i < v.len()
        invariant
            i <= v@.len(),
            r@ == v@.take(i as int),
        decreases v@.len() - i,
    {
        r.push(v[i]);
        i = i + 1;
        assert(r@ =~= v@.take(i as int));
    }
    assert(v@.take(i as int) =~= v@);
    r
}

/// `keys` without those in `hidden`, in their order.
pub open spec fn without(keys: Seq<ReadoutKey>, hidden: Seq<ReadoutKey>) -> Seq<ReadoutKey>
    decreases keys.len(),
{
    if keys.len() == 0 {
        keys
    } else if hidden.contains(keys.last()) {
        without(keys.drop_last(), hidden)
    } else {
        without(keys.drop_last(), hidden).push(keys.last())
    }
}

/// Whether `k` is among `keys`.
fn contains_key(keys: &Vec<ReadoutKey>, k: ReadoutKey) -> (r: bool)
    ensures
        r == keys@.contains(k),
{
    let mut i: usize = 0;
    while i < keys.len()
        invariant
            i <= keys@.len(),
            forall|j: int| 0 <= j < i ==> keys@[j] != k,
        decreases keys@.len() - i,
    {
        if keys[i] == k {
            return true;
        }
        i = i + 1;
    }
    false
}

/// The readouts to show: those named by `show_only` when it is given, else
/// every key but those named by `hide`.
pub fn should_display(opt: &Opt) -> (r: Vec<ReadoutKey>)
    ensures
        r@ == match opt.show_only {
            Some(s) => s@,
            None => match opt.hide {
                Some(h) => without(all_keys(), h@),
                None => all_keys(),
            },
        },
{
    if let Some(shown) = &opt.show_only {
        let mut r: Vec<ReadoutKey> = Vec::new();
        let mut i: usize = 0;
        while i < shown.len()
            invariant
                i <= shown@.len(),
                r@ == shown@.take(i as int),
            decreases shown@.len() - i,
        {
            r.push(shown[i]);
            i = i + 1;
            assert(r@ =~= shown@.take(i as int));
        }
        assert(shown@.take(i as int) =~= shown@);
        return r;
    }
    let keys = ReadoutKey::variants();
    match &opt.hide {
        None => keys,
        Some(hide) => {
            let mut r: Vec<ReadoutKey> = Vec::new();
            let mut i: usize = 0;
            while i < keys.len()
                invariant
                    i <= keys@.len(),
                    keys@ == all_keys(),
                    r@ == without(keys@.take(i as int), hide@),
                decreases keys@.len() - i,
            {
                assert(keys@.take(i as int + 1).drop_last() =~= keys@.take(i as int));
                if !contains_key(hide, keys[i]) {
                    r.push(keys[i]);
                }
                i = i + 1;
            }
            assert(keys@.take(i as int) =~= keys@);
            r
        },
    }
}

/// The first of the ascii arts, if there is any.
pub fn select_ascii(arts: &Vec<Text>) -> (r: Option<&Text>)
    ensures
        arts@.len() == 0 ==> r is None,
        arts@.len() > 0 ==> r == Some(&arts@[0]),
{
    if arts.len() > 0 {
        Some(&arts[0])
    } else {
        None
    }
}

/// One of the ascii arts, drawn at random; `None` when there is none.
pub fn random_ascii(arts: &Vec<Text>) -> (r: Option<&Text>)
    ensures
        r is None <==> arts@.len() == 0,
        r matches Some(t) ==> exists|i: int| 0 <= i < arts@.len() && t == &arts@[i],
{
    if arts.len() == 0 {
        return None;
    }
    let i = random_below(arts.len());
    Some(&arts[i])
}

pub open spec fn theme_suffix() -> Seq<char> {
    seq!['.', 't', 'o', 'm', 'l']
}

/// The theme that a file of a themes directory holds: for a file name with
/// the `toml` extension, the name without `.toml`; `None` for any other
/// file.
pub open spec fn theme_name_spec(file_name: Seq<char>) -> Option<Seq<char>> {
    if file_name.len() > theme_suffix().len() && occurs_at(
        file_name,
        theme_suffix(),
        file_name.len() - theme_suffix().len(),
    ) {
        Some(remove_all(file_name, theme_suffix()))
    } else {
        None
    }
}

/// The theme that the file `file_name` of a themes directory holds, if it
/// holds one.
pub fn theme_name(file_name: &Vec<char>) -> (r: Option<Vec<char>>)
    ensures
        r is Some == theme_name_spec(file_name@) is Some,
        r matches Some(n) ==> theme_name_spec(file_name@) == Some(n@),
{
    let suffix = vec!['.', 't', 'o', 'm', 'l'];
    assert(suffix@ =~= theme_suffix());
    if file_name.len() > suffix.len() && matches_at(file_name, &suffix, file_name.len() - suffix.len()) {
        Some(remove_all_exec(file_name, &suffix))
    } else {
        None
    }
}

} // verus!
