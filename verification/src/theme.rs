//! Colour themes. Colours are parsed from hex once when a theme loads, so
//! render code can use them directly.
//!
//! Theme files live in the embedded assets under `themes/<id>.json`; the
//! caller hands in each embedded path together with what its JSON parsed to
//! (see `ThemeAsset`).
use vstd::prelude::*;

use crate::sort::{lemma_insert_at, stable_sort};
use crate::text::{
    chars_of, join_str, ends_with, ends_with_at, is_white, seq_lt, starts_with, starts_with_at, str_lt,
    string_from, trim_both, trim_range, trim_start, Trim,
};

verus! {

/// A loaded theme: its id and its ten colours as `0xRRGGBB`.
#[derive(Debug)]
pub struct Theme {
    pub name: String,
    pub background: u32,
    pub surface: u32,
    pub surface_hover: u32,
    pub border: u32,
    pub text: u32,
    pub text_muted: u32,
    pub text_inactive: u32,
    pub selected: u32,
    pub selected_text: u32,
    pub selected_option: u32,
}

impl Clone for Theme {
    fn clone(&self) -> (r: Self)
        ensures
            r == *self,
    {
        Theme {
            name: self.name.clone(),
            background: self.background,
            surface: self.surface,
            surface_hover: self.surface_hover,
            border: self.border,
            text: self.text,
            text_muted: self.text_muted,
            text_inactive: self.text_inactive,
            selected: self.selected,
            selected_text: self.selected_text,
            selected_option: self.selected_option,
        }
    }
}

/// A theme that can be picked: its id (the file name) and display name.
#[derive(Debug)]
pub struct ThemeInfo {
    pub id: String,
    pub name: String,
}

pub struct ThemeInfoView {
    pub id: Seq<char>,
    pub name: Seq<char>,
}

impl View for ThemeInfo {
    type V = ThemeInfoView;

    open spec fn view(&self) -> ThemeInfoView {
        ThemeInfoView { id: self.id@, name: self.name@ }
    }
}

impl Clone for ThemeInfo {
    fn clone(&self) -> (r: Self)
        ensures
            r == *self,
    {
        ThemeInfo { id: self.id.clone(), name: self.name.clone() }
    }
}

/// The colours of one style of a theme file, as hex strings.
#[derive(Debug)]
pub struct ThemeColors {
    pub background: String,
    pub surface: String,
    pub surface_hover: String,
    pub border: String,
    pub text: String,
    pub text_muted: String,
    pub text_inactive: String,
    pub selected: String,
    pub selected_text: String,
    pub selected_option: String,
}

impl Clone for ThemeColors {
    fn clone(&self) -> (r: Self)
        ensures
            r == *self,
    {
        ThemeColors {
            background: self.background.clone(),
            surface: self.surface.clone(),
            surface_hover: self.surface_hover.clone(),
            border: self.border.clone(),
            text: self.text.clone(),
            text_muted: self.text_muted.clone(),
            text_inactive: self.text_inactive.clone(),
            selected: self.selected.clone(),
            selected_text: self.selected_text.clone(),
            selected_option: self.selected_option.clone(),
        }
    }
}

/// A theme file: an optional display name and its styles.
#[derive(Debug)]
pub struct ThemeFile {
    pub name: String,
    pub style: Vec<ThemeColors>,
}

/// One embedded file, with what its contents parsed to as a theme file
/// (`None` when it is no valid theme JSON).
#[derive(Debug)]
pub struct ThemeAsset {
    pub path: String,
    pub file: Option<ThemeFile>,
}

// ---------------------------------------------------------------------------
// Colours

pub open spec fn hex_digit(c: char) -> Option<int> {
    if '0' <= c <= '9' {
        Some(c as int - '0' as int)
    } else if 'a' <= c <= 'f' {
        Some(c as int - 'a' as int + 10)
    } else if 'A' <= c <= 'F' {
        Some(c as int - 'A' as int + 10)
    } else {
        None
    }
}

/// The number that `digits` write in base 16, if they are all hex digits.
pub open spec fn hex_value(digits: Seq<char>) -> Option<int>
    decreases digits.len(),
{
    if digits.len() == 0 {
        Some(0)
    } else {
        match (hex_value(digits.drop_last()), hex_digit(digits.last())) {
            (Some(v), Some(d)) => Some(v * 16 + d),
            _ => None,
        }
    }
}

/// `u32::from_str_radix(s, 16)`: an optional `+`, then at least one hex
/// digit, and a value that fits.
pub open spec fn parse_hex_u32(s: Seq<char>) -> Option<u32> {
    let digits = if s.len() > 0 && s[0] == '+' {
        s.drop_first()
    } else {
        s
    };
    if digits.len() == 0 {
        None
    } else {
        match hex_value(digits) {
            Some(v) => if v <= u32::MAX {
                Some(v as u32)
            } else {
                None
            },
            None => None,
        }
    }
}

/// The colour that a theme string stands for: surrounding whitespace and
/// leading `#` are dropped, then the rest is read as hex. A bad value is
/// bright magenta, so that it is easy to spot on screen.
pub open spec fn color_value(s: Seq<char>) -> u32 {
    match parse_hex_u32(trim_start(trim_both(s, Trim::Whitespace), Trim::Exactly('#'))) {
        Some(v) => v,
        None => 0xff00ff,
    }
}

fn hex_digit_of(c: char) -> (r: Option<u32>)
    ensures
        match r {
            Some(d) => hex_digit(c) == Some(d as int) && d < 16,
            None => hex_digit(c) is None,
        },
{
    if '0' <= c && c <= '9' {
        Some((c as u32) - ('0' as u32))
    } else if 'a' <= c && c <= 'f' {
        Some((c as u32) - ('a' as u32) + 10)
    } else if 'A' <= c && c <= 'F' {
        Some((c as u32) - ('A' as u32) + 10)
    } else {
        None
    }
}

proof fn lemma_hex_value_step(s: Seq<char>, i: int)
    requires
        0 <= i < s.len(),
    ensures
        hex_value(s.take(i + 1)) == match (hex_value(s.take(i)), hex_digit(s[i])) {
            (Some(v), Some(d)) => Some(v * 16 + d),
            _ => None,
        },
{
    assert(s.take(i + 1).drop_last() == s.take(i));
}

proof fn lemma_hex_value_nonneg(s: Seq<char>)
    ensures
        hex_value(s) matches Some(v) ==> v >= 0,
    decreases s.len(),
{
    if s.len() > 0 {
        lemma_hex_value_nonneg(s.drop_last());
    }
}

/// `v[lo..hi]` read as `u32::from_str_radix(_, 16)` reads it.
fn parse_hex_range(v: &Vec<char>, lo: usize, hi: usize) -> (r: Option<u32>)
    requires
        lo <= hi <= v.len(),
    ensures
        r == parse_hex_u32(v@.subrange(lo as int, hi as int)),
{
    let ghost s = v@.subrange(lo as int, hi as int);
    let mut start = lo;
    if lo < hi && v[lo] == '+' {
        start = lo + 1;
    }
    let ghost digits = v@.subrange(start as int, hi as int);
    assert(digits == if s.len() > 0 && s[0] == '+' {
        s.drop_first()
    } else {
        s
    });
    if start == hi {
        return None;
    }
    let mut acc: u64 = 0;
    let mut over = false;
    let mut i = start;
    assert(digits.take(0) =~= Seq::<char>::empty());
    while i < hi
        invariant
            lo <= start <= i <= hi <= v.len(),
            s == v@.subrange(lo as int, hi as int),
            digits == v@.subrange(start as int, hi as int),
            digits.len() > 0,
            digits == if s.len() > 0 && s[0] == '+' {
                s.drop_first()
            } else {
                s
            },
            hex_value(digits.take(i - start)) is Some,
            !over ==> hex_value(digits.take(i - start)) == Some(acc as int) && acc <= u32::MAX,
            over ==> hex_value(digits.take(i - start))->0 > u32::MAX,
        decreases hi - i,
    {
        proof {
            lemma_hex_value_step(digits, i - start);
            lemma_hex_value_nonneg(digits.take(i - start));
            assert(digits[i - start] == v@[i as int]);
        }
        match hex_digit_of(v[i]) {
            None => {
                proof {
                    lemma_hex_prefix_none(digits, i - start + 1);
                }
                return None;
            },
            Some(d) => {
                if !over {
                    acc = acc * 16 + d as u64;
                    if acc > 0xffff_ffff {
                        over = true;
                    }
                }
            },
        }
        i = i + 1;
    }
    assert(digits.take(digits.len() as int) == digits);
    if over {
        None
    } else {
        Some(acc as u32)
    }
}

proof fn lemma_hex_prefix_none(s: Seq<char>, k: int)
    requires
        0 <= k <= s.len(),
        hex_value(s.take(k)) is None,
    ensures
        hex_value(s) is None,
    decreases s.len() - k,
{
    if k < s.len() {
        lemma_hex_value_step(s, k);
        lemma_hex_prefix_none(s, k + 1);
    } else {
        assert(s.take(k) == s);
    }
}

/// "#1e1e1e" -> 0x1e1e1e; a value that is no hex colour gives 0xff00ff.
pub fn parse_color(value: &str) -> (r: u32)
    ensures
        r == color_value(value@),
{
    let v = chars_of(value);
    let (i, j) = trim_range(&v, 0, v.len(), Trim::Whitespace);
    assert(v@.subrange(0, v@.len() as int) == v@);
    let ghost t = v@.subrange(i as int, j as int);
    let mut k = i;
    assert(t.skip(0) == t);
    while k < j && v[k] == '#'
        invariant
            i <= k <= j <= v.len(),
            t == v@.subrange(i as int, j as int),
            trim_start(t, Trim::Exactly('#')) == trim_start(t.skip(k - i), Trim::Exactly('#')),
        decreases j - k,
    {
        assert(t.skip(k - i).drop_first() == t.skip(k - i + 1));
        k = k + 1;
    }
    assert(t.skip(k - i) == v@.subrange(k as int, j as int));
    match parse_hex_range(&v, k, j) {
        Some(c) => c,
        None => 0xff00ff,
    }
}

// ---------------------------------------------------------------------------
// Themes from files

pub open spec fn colors_match(t: Theme, name: Seq<char>, c: ThemeColors) -> bool {
    &&& t.name@ == name
    &&& t.background == color_value(c.background@)
    &&& t.surface == color_value(c.surface@)
    &&& t.surface_hover == color_value(c.surface_hover@)
    &&& t.border == color_value(c.border@)
    &&& t.text == color_value(c.text@)
    &&& t.text_muted == color_value(c.text_muted@)
    &&& t.text_inactive == color_value(c.text_inactive@)
    &&& t.selected == color_value(c.selected@)
    &&& t.selected_text == color_value(c.selected_text@)
    &&& t.selected_option == color_value(c.selected_option@)
}

/// The built-in dark palette.
pub open spec fn is_fallback(t: Theme) -> bool {
    &&& t.name@ == seq!['f', 'a', 'l', 'l', 'b', 'a', 'c', 'k']
    &&& t.background == 0x1e1e1e
    &&& t.surface == 0x252526
    &&& t.surface_hover == 0x2d2d2d
    &&& t.border == 0x3c3c3c
    &&& t.text == 0xe6e6e6
    &&& t.text_muted == 0xb0b0b0
    &&& t.text_inactive == 0x707070
    &&& t.selected == 0x094771
    &&& t.selected_text == 0xffffff
    &&& t.selected_option == 0x37373d
}

pub open spec fn themes_dir() -> Seq<char> {
    seq!['t', 'h', 'e', 'm', 'e', 's', '/']
}

pub open spec fn json_ext() -> Seq<char> {
    seq!['.', 'j', 's', 'o', 'n']
}

/// The path of the theme file with this id: `themes/<id>.json`.
pub open spec fn theme_path(id: Seq<char>) -> Seq<char> {
    themes_dir() + id + json_ext()
}

/// The theme id that an embedded path names: what is left once the
/// `themes/` prefix and then the `.json` suffix are stripped.
pub open spec fn theme_id_of(path: Seq<char>) -> Option<Seq<char>> {
    if starts_with(path, themes_dir()) && ends_with(path.skip(7), json_ext()) {
        Some(path.skip(7).take(path.len() - 12))
    } else {
        None
    }
}

/// What the first embedded file at `path` parsed to (`None` when no file
/// is there or it is no theme).
pub open spec fn read_asset(assets: Seq<ThemeAsset>, path: Seq<char>) -> Option<ThemeFile>
    decreases assets.len(),
{
    if assets.len() == 0 {
        None
    } else if assets[0].path@ == path {
        assets[0].file
    } else {
        read_asset(assets.drop_first(), path)
    }
}

/// The theme that one embedded path offers, if any: the file at
/// `themes/<id>.json` must parse and have a style; its name defaults to
/// the id.
pub open spec fn offered_theme(assets: Seq<ThemeAsset>, path: Seq<char>) -> Option<ThemeInfoView> {
    match theme_id_of(path) {
        Some(id) => match read_asset(assets, theme_path(id)) {
            Some(f) => if f.style@.len() > 0 {
                Some(
                    ThemeInfoView {
                        id,
                        name: if f.name@.len() == 0 {
                            id
                        } else {
                            f.name@
                        },
                    },
                )
            } else {
                None
            },
            None => None,
        },
        None => None,
    }
}

/// The themes offered by the first `n` embedded paths, in their order.
pub open spec fn offered_themes(assets: Seq<ThemeAsset>, n: int) -> Seq<ThemeInfoView>
    decreases n,
{
    if n <= 0 {
        Seq::empty()
    } else {
        match offered_theme(assets, assets[n - 1].path@) {
            Some(t) => offered_themes(assets, n - 1).push(t),
            None => offered_themes(assets, n - 1),
        }
    }
}

pub open spec fn by_name() -> spec_fn(ThemeInfoView, ThemeInfoView) -> bool {
    |a: ThemeInfoView, b: ThemeInfoView| seq_lt(a.name, b.name)
}

pub open spec fn by_name_info() -> spec_fn(ThemeInfo, ThemeInfo) -> bool {
    |a: ThemeInfo, b: ThemeInfo| seq_lt(a.name@, b.name@)
}

/// Every theme the embedded files offer, sorted by name (stable).
pub open spec fn available_themes(assets: Seq<ThemeAsset>) -> Seq<ThemeInfoView> {
    stable_sort(offered_themes(assets, assets.len() as int), by_name())
}

/// The id of the theme `zed` if it is offered, else of the first theme.
pub open spec fn zed_id() -> Seq<char> {
    seq!['z', 'e', 'd']
}

pub open spec fn default_theme_id(themes: Seq<ThemeInfoView>) -> Option<Seq<char>> {
    if exists|i: int| 0 <= i < themes.len() && (#[trigger] themes[i]).id == zed_id() {
        Some(zed_id())
    } else if themes.len() > 0 {
        Some(themes[0].id)
    } else {
        None
    }
}

pub open spec fn first_style(f: Option<ThemeFile>) -> Option<ThemeColors> {
    match f {
        Some(f) => if f.style@.len() > 0 {
            Some(f.style@[0])
        } else {
            None
        },
        None => None,
    }
}

pub open spec fn seq_view(s: Seq<ThemeInfo>) -> Seq<ThemeInfoView> {
    s.map_values(|t: ThemeInfo| t@)
}

fn themes_dir_string() -> (r: String)
    ensures
        r@ == themes_dir(),
{
    let s = "themes/";
    proof {
        reveal_strlit("themes/");
    }
    s.to_owned()
}

fn json_ext_chars() -> (r: Vec<char>)
    ensures
        r@ == json_ext(),
{
    let s = ".json";
    proof {
        reveal_strlit(".json");
    }
    chars_of(s)
}

/// `themes/<id>.json`.
pub fn theme_file_path(id: &str) -> (r: String)
    ensures
        r@ == theme_path(id@),
{
    let mut r = themes_dir_string();
    r.append(id);
    let ext = ".json";
    proof {
        reveal_strlit(".json");
    }
    r.append(ext);
    r
}

/// Index of the first embedded file at `path`.
fn find_asset(assets: &Vec<ThemeAsset>, path: &String) -> (r: Option<usize>)
    ensures
        match r {
            Some(i) => i < assets.len() && read_asset(assets@, path@) == assets@[i as int].file,
            None => read_asset(assets@, path@) is None,
        },
{
    let mut i: usize = 0;
    assert(assets@.skip(0) == assets@);
    while i < assets.len()
        invariant
            0 <= i <= assets.len(),
            read_asset(assets@, path@) == read_asset(assets@.skip(i as int), path@),
        decreases assets.len() - i,
    {
        assert(assets@.skip(i as int)[0] == assets@[i as int]);
        if assets[i].path == *path {
            return Some(i);
        }
        assert(assets@.skip(i as int).drop_first() == assets@.skip(i + 1));
        i = i + 1;
    }
    None
}

/// Where `x` goes among the already sorted `out`: before the first theme
/// whose name sorts after its name.
fn by_name_position(out: &Vec<ThemeInfo>, x: &ThemeInfo) -> (p: usize)
    ensures
        p <= out.len(),
        forall|k: int| 0 <= k < p ==> !(by_name_info())(*x, #[trigger] out@[k]),
        p == out.len() || (by_name_info())(*x, out@[p as int]),
{
    let key = chars_of(x.name.as_str());
    let mut p: usize = 0;
    while p < out.len()
        invariant
            key@ == x.name@,
            p <= out.len(),
            forall|k: int| 0 <= k < p ==> !(by_name_info())(*x, #[trigger] out@[k]),
        decreases out.len() - p,
    {
        let other = chars_of(out[p].name.as_str());
        if str_lt(&key, &other) {
            return p;
        }
        p = p + 1;
    }
    p
}

/// A stable sort of `v` by name.
pub fn sort_by_name(v: Vec<ThemeInfo>) -> (r: Vec<ThemeInfo>)
    ensures
        r@ == stable_sort(v@, by_name_info()),
{
    let ghost s = v@;
    let mut out: Vec<ThemeInfo> = Vec::new();
    for x in it: v.into_iter()
        invariant
            it.seq() == s,
            out@ == stable_sort(s.take(it.index() as int), by_name_info()),
    {
        let ghost k = it.index();
        proof {
            assert(s.take(k + 1).drop_last() == s.take(k as int));
            assert(s.take(k + 1).last() == x);
        }
        let p = by_name_position(&out, &x);
        proof {
            lemma_insert_at(out@, x, by_name_info(), p as int);
        }
        out.insert(p, x);
    }
    assert(s.take(s.len() as int) == s);
    out
}

proof fn lemma_by_name_view(s: Seq<ThemeInfo>)
    ensures
        seq_view(stable_sort(s, by_name_info())) == stable_sort(seq_view(s), by_name()),
{
    assert forall|a: ThemeInfo, b: ThemeInfo| #[trigger]
        (by_name_info())(a, b) == (by_name())(a@, b@) by {}
    crate::sort::lemma_stable_sort_map(s, |t: ThemeInfo| t@, by_name_info(), by_name());
}

/// The theme one embedded path offers, computed.
fn theme_at(assets: &Vec<ThemeAsset>, i: usize) -> (r: Option<ThemeInfo>)
    requires
        i < assets.len(),
    ensures
        match r {
            Some(t) => offered_theme(assets@, assets@[i as int].path@) == Some(t@),
            None => offered_theme(assets@, assets@[i as int].path@) is None,
        },
{
    let p = chars_of(assets[i].path.as_str());
    let ghost path = p@;
    let prefix = chars_of(themes_dir_string().as_str());
    let ext = json_ext_chars();
    assert(p@.skip(0) == p@);
    if !starts_with_at(&p, 0, &prefix) || p.len() < 12 || !ends_with_at(&p, p.len(), &ext) {
        proof {
            if starts_with(path, themes_dir()) && ends_with(path.skip(7), json_ext()) {
                assert(path.take(path.len() as int) == path);
                assert(path.skip(7).skip(path.len() - 12) =~= path.skip(path.len() - 5));
            }
        }
        return None;
    }
    proof {
        assert(path.take(path.len() as int) == path);
        assert(path.skip(7).skip(path.len() - 12) =~= path.skip(path.len() - 5));
    }
    let id = string_from(&p, 7, p.len() - 5);
    assert(id@ =~= path.skip(7).take(path.len() - 12));
    let file_path = theme_file_path(id.as_str());
    match find_asset(assets, &file_path) {
        None => None,
        Some(j) => match &assets[j].file {
            None => None,
            Some(f) => {
                if f.style.len() == 0 {
                    None
                } else {
                    let name = if f.name.as_str().is_empty() {
                        id.clone()
                    } else {
                        f.name.clone()
                    };
                    Some(ThemeInfo { id, name })
                }
            },
        },
    }
}

impl Theme {
    /// Every theme that the embedded files offer, sorted by name: each
    /// `themes/<id>.json` that parses and has at least one style, named by
    /// its `name` or else by its id.
    pub fn available(assets: &Vec<ThemeAsset>) -> (r: Vec<ThemeInfo>)
        ensures
            seq_view(r@) == available_themes(assets@),
    {
        let mut found: Vec<ThemeInfo> = Vec::new();
        let mut i: usize = 0;
        while i < assets.len()
            invariant
                0 <= i <= assets.len(),
                seq_view(found@) == offered_themes(assets@, i as int),
            decreases assets.len() - i,
        {
            match theme_at(assets, i) {
                Some(t) => {
                    found.push(t);
                    assert(seq_view(found@) =~= offered_themes(assets@, i as int).push(t@));
                },
                None => {},
            }
            i = i + 1;
        }
        let ghost unsorted = found@;
        let r = sort_by_name(found);
        proof {
            lemma_by_name_view(unsorted);
        }
        r
    }

    /// The id of the theme to start with: `zed` if it is offered, else the
    /// first theme by name.
    pub fn default_name(assets: &Vec<ThemeAsset>) -> (r: Option<String>)
        ensures
            match r {
                Some(d) => default_theme_id(available_themes(assets@)) == Some(d@),
                None => default_theme_id(available_themes(assets@)) is None,
            },
    {
        let themes = Self::available(assets);
        default_of(&themes)
    }

    /// The theme with this id. Never fails: a missing or broken theme
    /// gives the default theme, and failing that the built-in palette.
    pub fn load_named(name: &str, assets: &Vec<ThemeAsset>) -> (t: Theme)
        ensures
            is_loaded(t, name@, assets@),
        decreases
            if first_style(read_asset(assets@, theme_path(name@))) is Some {
                0int
            } else {
                1int
            },
    {
        let path = theme_file_path(name);
        let colors: Option<ThemeColors> = match find_asset(assets, &path) {
            Some(i) => match &assets[i].file {
                Some(f) => if f.style.len() > 0 {
                    Some(f.style[0].clone())
                } else {
                    None
                },
                None => None,
            },
            None => None,
        };
        match colors {
            Some(c) => Self::from_colors(name, c),
            None => match Self::default_name(assets) {
                Some(default) => {
                    if default != name.to_owned() {
                        proof {
                            lemma_default_readable(assets@);
                        }
                        Self::load_named(default.as_str(), assets)
                    } else {
                        Self::fallback()
                    }
                },
                None => Self::fallback(),
            },
        }
    }

    /// The theme to start with: the default theme, or the built-in palette
    /// when no theme is offered.
    pub fn load(assets: &Vec<ThemeAsset>) -> (t: Theme)
        ensures
            match default_theme_id(available_themes(assets@)) {
                Some(d) => is_loaded(t, d, assets@),
                None => is_fallback(t),
            },
    {
        match Self::default_name(assets) {
            Some(name) => Self::load_named(name.as_str(), assets),
            None => Self::fallback(),
        }
    }

    /// A theme with this name and the colours of `colors`.
    pub fn from_colors(name: &str, colors: ThemeColors) -> (t: Theme)
        ensures
            colors_match(t, name@, colors),
    {
        Theme {
            name: name.to_owned(),
            background: parse_color(colors.background.as_str()),
            surface: parse_color(colors.surface.as_str()),
            surface_hover: parse_color(colors.surface_hover.as_str()),
            border: parse_color(colors.border.as_str()),
            text: parse_color(colors.text.as_str()),
            text_muted: parse_color(colors.text_muted.as_str()),
            text_inactive: parse_color(colors.text_inactive.as_str()),
            selected: parse_color(colors.selected.as_str()),
            selected_text: parse_color(colors.selected_text.as_str()),
            selected_option: parse_color(colors.selected_option.as_str()),
        }
    }

    /// Used only if no theme file can be loaded at all, so the app still
    /// starts.
    pub fn fallback() -> (t: Theme)
        ensures
            is_fallback(t),
    {
        let name = "fallback";
        proof {
            reveal_strlit("fallback");
        }
        assert(name@ =~= seq!['f', 'a', 'l', 'l', 'b', 'a', 'c', 'k']);
        Theme {
            name: name.to_owned(),
            background: 0x1e1e1e,
            surface: 0x252526,
            surface_hover: 0x2d2d2d,
            border: 0x3c3c3c,
            text: 0xe6e6e6,
            text_muted: 0xb0b0b0,
            text_inactive: 0x707070,
            selected: 0x094771,
            selected_text: 0xffffff,
            selected_option: 0x37373d,
        }
    }
}

/// What loading the theme `name` gives: its first style if its file has
/// one; else the default theme, if that is another one; else the built-in
/// palette.
pub open spec fn is_loaded(t: Theme, name: Seq<char>, assets: Seq<ThemeAsset>) -> bool {
    match first_style(read_asset(assets, theme_path(name))) {
        Some(c) => colors_match(t, name, c),
        None => match default_theme_id(available_themes(assets)) {
            Some(d) => if d != name {
                match first_style(read_asset(assets, theme_path(d))) {
                    Some(c) => colors_match(t, d, c),
                    None => is_fallback(t),
                }
            } else {
                is_fallback(t)
            },
            None => is_fallback(t),
        },
    }
}

proof fn lemma_offered_readable(assets: Seq<ThemeAsset>, n: int)
    ensures
        forall|k: int|
            0 <= k < offered_themes(assets, n).len() ==> (first_style(
                read_asset(assets, theme_path((#[trigger] offered_themes(assets, n)[k]).id)),
            ) is Some),
    decreases n,
{
    if n > 0 {
        lemma_offered_readable(assets, n - 1);
        let prev = offered_themes(assets, n - 1);
        match offered_theme(assets, assets[n - 1].path@) {
            Some(t) => {
                assert forall|k: int| 0 <= k < offered_themes(assets, n).len() implies (first_style(
                    read_asset(assets, theme_path((#[trigger] offered_themes(assets, n)[k]).id)),
                ) is Some) by {
                    if k < prev.len() {
                        assert(offered_themes(assets, n)[k] == prev[k]);
                    }
                }
            },
            None => {},
        }
    }
}

/// The default theme's file can be read and has a style.
pub proof fn lemma_default_readable(assets: Seq<ThemeAsset>)
    ensures
        default_theme_id(available_themes(assets)) matches Some(d) ==> first_style(
            read_asset(assets, theme_path(d)),
        ) is Some,
{
    broadcast use vstd::seq_lib::group_to_multiset_ensures;

    let offered = offered_themes(assets, assets.len() as int);
    let sorted = available_themes(assets);
    crate::sort::lemma_stable_sort_multiset(offered, by_name());
    lemma_offered_readable(assets, assets.len() as int);
    assert forall|k: int| 0 <= k < sorted.len() implies first_style(
        read_asset(assets, theme_path((#[trigger] sorted[k]).id)),
    ) is Some by {
        assert(sorted.contains(sorted[k]));
        assert(sorted.to_multiset().count(sorted[k]) > 0);
        assert(offered.contains(sorted[k]));
        let j = choose|j: int| 0 <= j < offered.len() && offered[j] == sorted[k];
        assert(offered[j] == sorted[k]);
    }
    if exists|i: int| 0 <= i < sorted.len() && (#[trigger] sorted[i]).id == zed_id() {
        let i = choose|i: int| 0 <= i < sorted.len() && (#[trigger] sorted[i]).id == zed_id();
        assert(sorted[i].id == zed_id());
    } else if sorted.len() > 0 {
        assert(sorted[0].id == sorted[0].id);
    }
}

/// The id of `zed` among `themes`, or else of the first one.
pub fn default_of(themes: &Vec<ThemeInfo>) -> (r: Option<String>)
    ensures
        match r {
            Some(d) => default_theme_id(seq_view(themes@)) == Some(d@),
            None => default_theme_id(seq_view(themes@)) is None,
        },
{
    let zed_str = "zed";
    proof {
        reveal_strlit("zed");
    }
    let zed = zed_str.to_owned();
    let ghost z = zed_id();
    assert(zed@ =~= z);
    let ghost vs = seq_view(themes@);
    let mut i: usize = 0;
    while i < themes.len()
        invariant
            0 <= i <= themes.len(),
            vs == seq_view(themes@),
            zed@ == z,
            z == zed_id(),
            forall|k: int| 0 <= k < i ==> (#[trigger] vs[k]).id != z,
        decreases themes.len() - i,
    {
        assert(vs[i as int].id == themes@[i as int].id@);
        if themes[i].id == zed {
            assert(vs[i as int].id == zed_id());
            return Some(themes[i].id.clone());
        }
        i = i + 1;
    }
    if themes.len() > 0 {
        assert(vs[0].id == themes@[0].id@);
        Some(themes[0].id.clone())
    } else {
        None
    }
}

} // verus!
