//! The tabs and windows of the info pane: the files tab's filter, states
//! and copy, the copied lists of the other tabs, window titles, where a
//! PKGBUILD is read from, and the font of the PKGBUILD view.
use vstd::prelude::*;

use crate::text::{push_str, decimal, decimal_string, views, chars_of};
use crate::cache::starts_with_str;

verus! {

//------------------------------------------------------------------------------
// Files tab
//------------------------------------------------------------------------------
/// Whether the files tab lists a path: folders (paths ending with `/`)
/// only when they are to be shown.
pub fn file_shown(show_folders: bool, path: &str) -> (r: bool)
    ensures
        r == (show_folders || !(path@.len() > 0 && path@.last() == '/')),
{
    if show_folders {
        return true;
    }
    let v = chars_of(path);
    !(v.len() > 0 && v[v.len() - 1] == '/')
}

/// The path that opening a file of a package opens: under the root
/// directory of the configuration.
pub fn file_open_path(root_dir: &str, file: &str) -> (r: String)
    ensures
        r@ == root_dir@ + file@,
{
    let mut s = String::new();
    push_str(&mut s, root_dir);
    push_str(&mut s, file);
    s
}

/// The state of a tab that lists what an installed package has.
#[derive(Clone, Copy, Debug, PartialEq, Eq, Structural)]
pub enum TabState {
    Loading,
    Installed,
    Remote,
}

impl Default for TabState {
    fn default() -> (r: Self)
        ensures
            r == TabState::Loading,
    {
        TabState::Loading
    }
}

/// What the files tab shows in a state; `None` leaves a widget as it was.
#[derive(Debug)]
pub struct FilesTabDisplay {
    pub search_sensitive: bool,
    pub loading_visible: bool,
    pub remote_visible: bool,
    pub empty_visible: Option<bool>,
    /// Whether the search bar is closed.
    pub close_search: bool,
}

pub fn files_tab_display(state: TabState) -> (r: FilesTabDisplay)
    ensures
        r.search_sensitive == (state == TabState::Installed),
        r.loading_visible == (state == TabState::Loading),
        r.remote_visible == (state == TabState::Remote),
        r.empty_visible == (if state == TabState::Installed {
            None
        } else {
            Some(false)
        }),
        r.close_search == (state == TabState::Remote),
{
    match state {
        TabState::Loading => FilesTabDisplay {
            search_sensitive: false,
            loading_visible: true,
            remote_visible: false,
            empty_visible: Some(false),
            close_search: false,
        },
        TabState::Installed => FilesTabDisplay {
            search_sensitive: true,
            loading_visible: false,
            remote_visible: false,
            empty_visible: None,
            close_search: false,
        },
        TabState::Remote => FilesTabDisplay {
            search_sensitive: false,
            loading_visible: false,
            remote_visible: true,
            empty_visible: Some(false),
            close_search: true,
        },
    }
}

/// What the files tab enables for a number of listed files: the empty
/// notice (for an installed package with none), and the folder, open and
/// copy actions (when there are some).
pub fn files_count_display(state: TabState, n_items: u32) -> (r: (String, bool, bool))
    ensures
        r.0@ == decimal(n_items as nat),
        r.1 == (state == TabState::Installed && n_items == 0),
        r.2 == (n_items > 0),
{
    (decimal_string(n_items as u64), state == TabState::Installed && n_items == 0, n_items > 0)
}

/// The page a list dialog shows: loading until its list is read, then the
/// list, or the empty notice when nothing passes the filters.
pub fn list_page(is_loaded: bool, n_items: u32) -> (r: &'static str)
    ensures
        !is_loaded ==> r@ == "loading"@,
        is_loaded && n_items == 0 ==> r@ == "empty"@,
        is_loaded && n_items > 0 ==> r@ == "view"@,
{
    if is_loaded {
        if n_items == 0 {
            "empty"
        } else {
            "view"
        }
    } else {
        "loading"
    }
}

//------------------------------------------------------------------------------
// Copied lists
//------------------------------------------------------------------------------
/// Lines of text, each followed by a line break.
pub open spec fn lines_text(v: Seq<Seq<char>>) -> Seq<char>
    decreases v.len(),
{
    if v.len() == 0 {
        Seq::empty()
    } else {
        lines_text(v.drop_last()) + v.last() + "\n"@
    }
}

/// A titled one-column table: `{marks} {title}`, the column head, the rule
/// and one line per item (the copy of the files, log and cache tabs).
pub open spec fn list_copy_spec(marks: Seq<char>, title: Seq<char>, head: Seq<char>, items: Seq<Seq<char>>) -> Seq<char> {
    marks + " "@ + title + "\n|"@ + head + "|\n|---|\n"@ + lines_text(items)
}

fn push_lines(s: &mut String, items: &Vec<String>)
    ensures
        final(s)@ == old(s)@ + lines_text(views(items@)),
{
    let ghost start = s@;
    let mut i: usize = 0;
    while i < items.len()
        invariant
            i <= items@.len(),
            s@ == start + lines_text(views(items@).take(i as int)),
        decreases items@.len() - i,
    {
        assert(views(items@).take(i + 1).drop_last() == views(items@).take(i as int));
        push_str(s, items[i].as_str());
        push_str(s, "\n");
        i = i + 1;
    }
    assert(views(items@).take(items@.len() as int) == views(items@));
}

/// The copy of the files tab: `### name`, the `Files` column, the paths.
pub fn files_copy(pkg_name: &str, files: &Vec<String>) -> (r: String)
    ensures
        r@ == list_copy_spec("###"@, pkg_name@, "Files"@, views(files@)),
{
    let mut s = String::new();
    push_str(&mut s, "###");
    push_str(&mut s, " ");
    push_str(&mut s, pkg_name);
    push_str(&mut s, "\n|");
    push_str(&mut s, "Files");
    push_str(&mut s, "|\n|---|\n");
    push_lines(&mut s, files);
    s
}

/// The copy of the log and cache lists of a package: `## name`, the
/// column head (`Log Messages`, `Cache Files`), the lines.
pub fn package_list_copy(pkg_name: &str, head: &str, lines: &Vec<String>) -> (r: String)
    ensures
        r@ == list_copy_spec("##"@, pkg_name@, head@, views(lines@)),
{
    let mut s = String::new();
    push_str(&mut s, "##");
    push_str(&mut s, " ");
    push_str(&mut s, pkg_name);
    push_str(&mut s, "\n|");
    push_str(&mut s, head);
    push_str(&mut s, "|\n|---|\n");
    push_lines(&mut s, lines);
    s
}

//------------------------------------------------------------------------------
// Windows
//------------------------------------------------------------------------------
/// The title of a package's window: `name  •  what` (`Hashes`, `PKGBUILD`).
pub fn window_title(pkg_name: &str, what: &str) -> (r: String)
    ensures
        r@ == pkg_name@ + "  \u{2022}  "@ + what@,
{
    let mut s = String::new();
    push_str(&mut s, pkg_name);
    push_str(&mut s, "  \u{2022}  ");
    push_str(&mut s, what);
    s
}

/// Where the PKGBUILD window reads a PKGBUILD from.
#[derive(Debug)]
pub enum PkgbuildSource {
    /// Nothing to read: the error "PKGBUILD not available".
    Unavailable,
    /// A web address.
    Web(String),
    /// A local file.
    File(String),
}

/// The source of a PKGBUILD's raw address: none when it is empty, the web
/// for an `https://` address, else a file.
pub fn pkgbuild_source(raw_url: &str) -> (r: PkgbuildSource)
    ensures
        raw_url@.len() == 0 ==> r is Unavailable,
        raw_url@.len() > 0 && "https://"@.is_prefix_of(raw_url@) ==> (r matches PkgbuildSource::Web(
            u,
        ) && u@ == raw_url@),
        raw_url@.len() > 0 && !"https://"@.is_prefix_of(raw_url@) ==> (r matches PkgbuildSource::File(
            p,
        ) && p@ == raw_url@),
{
    let n = chars_of(raw_url).len();
    let mut s = String::new();
    push_str(&mut s, raw_url);
    if n == 0 {
        PkgbuildSource::Unavailable
    } else if starts_with_str(raw_url, "https://") {
        PkgbuildSource::Web(s)
    } else {
        PkgbuildSource::File(s)
    }
}

/// The error the PKGBUILD window shows when there is nothing to read.
pub fn pkgbuild_unavailable() -> (r: &'static str)
    ensures
        r@ == "PKGBUILD not available"@,
{
    "PKGBUILD not available"
}

//------------------------------------------------------------------------------
// Font of the PKGBUILD view
//------------------------------------------------------------------------------
/// The weight of a font.
#[derive(Clone, Copy, Debug, PartialEq, Eq, Structural)]
pub enum FontWeight {
    Thin,
    Ultralight,
    Light,
    Semilight,
    Book,
    Normal,
    Medium,
    Semibold,
    Bold,
    Ultrabold,
    Heavy,
    Ultraheavy,
}

/// The slant of a font.
#[derive(Clone, Copy, Debug, PartialEq, Eq, Structural)]
pub enum FontStyle {
    Normal,
    Oblique,
    Italic,
}

/// The fields that a font description sets: family, size (in Pango units,
/// 1024 to the point), weight and style.
#[derive(Debug)]
pub struct FontFields {
    pub family: Option<String>,
    pub size: Option<i32>,
    pub weight: Option<FontWeight>,
    pub style: Option<FontStyle>,
}

pub open spec fn weight_css(w: FontWeight) -> Seq<char> {
    match w {
        FontWeight::Normal => "normal"@,
        FontWeight::Bold => "bold"@,
        FontWeight::Thin => "100"@,
        FontWeight::Ultralight => "200"@,
        FontWeight::Light | FontWeight::Semilight => "300"@,
        FontWeight::Book => "400"@,
        FontWeight::Medium => "500"@,
        FontWeight::Semibold => "600"@,
        FontWeight::Ultrabold => "800"@,
        FontWeight::Heavy | FontWeight::Ultraheavy => "900"@,
    }
}

pub open spec fn style_css(s: FontStyle) -> Seq<char> {
    match s {
        FontStyle::Normal => "normal"@,
        FontStyle::Oblique => "oblique"@,
        FontStyle::Italic => "italic"@,
    }
}

/// Whole points of a size in Pango units, never below zero.
pub open spec fn points(size: i32) -> nat {
    if size >= 0 {
        (size / 1024) as nat
    } else {
        0
    }
}

/// The CSS declarations of a font: family, size in points, weight and
/// style, each when the description sets it.
pub open spec fn font_css_spec(f: FontFields) -> Seq<char> {
    (match f.family {
        Some(fam) => "font-family: "@ + fam@ + "; "@,
        None => Seq::empty(),
    }) + (match f.size {
        Some(s) => "font-size: "@ + decimal(points(s)) + "pt; "@,
        None => Seq::empty(),
    }) + (match f.weight {
        Some(w) => "font-weight: "@ + weight_css(w) + "; "@,
        None => Seq::empty(),
    }) + (match f.style {
        Some(st) => "font-style: "@ + style_css(st) + "; "@,
        None => Seq::empty(),
    })
}

fn weight_str(w: FontWeight) -> (r: &'static str)
    ensures
        r@ == weight_css(w),
{
    match w {
        FontWeight::Normal => "normal",
        FontWeight::Bold => "bold",
        FontWeight::Thin => "100",
        FontWeight::Ultralight => "200",
        FontWeight::Light | FontWeight::Semilight => "300",
        FontWeight::Book => "400",
        FontWeight::Medium => "500",
        FontWeight::Semibold => "600",
        FontWeight::Ultrabold => "800",
        FontWeight::Heavy | FontWeight::Ultraheavy => "900",
    }
}

fn style_str(s: FontStyle) -> (r: &'static str)
    ensures
        r@ == style_css(s),
{
    match s {
        FontStyle::Normal => "normal",
        FontStyle::Oblique => "oblique",
        FontStyle::Italic => "italic",
    }
}

fn family_part(f: &Option<String>) -> (r: String)
    ensures
        r@ == (match *f {
            Some(fam) => "font-family: "@ + fam@ + "; "@,
            None => Seq::empty(),
        }),
{
    let mut css = String::new();
    match f {
        Some(fam) => {
            push_str(&mut css, "font-family: ");
            push_str(&mut css, fam.as_str());
            push_str(&mut css, "; ");
        },
        None => {},
    }
    css
}

fn size_part(size: Option<i32>) -> (r: String)
    ensures
        r@ == (match size {
            Some(s) => "font-size: "@ + decimal(points(s)) + "pt; "@,
            None => Seq::empty(),
        }),
{
    let mut css = String::new();
    match size {
        Some(s) => {
            let pts: u64 = if s >= 0 {
                (s / 1024) as u64
            } else {
                0
            };
            push_str(&mut css, "font-size: ");
            let d = decimal_string(pts);
            push_str(&mut css, d.as_str());
            push_str(&mut css, "pt; ");
        },
        None => {},
    }
    css
}

fn weight_part(weight: Option<FontWeight>) -> (r: String)
    ensures
        r@ == (match weight {
            Some(w) => "font-weight: "@ + weight_css(w) + "; "@,
            None => Seq::empty(),
        }),
{
    let mut css = String::new();
    match weight {
        Some(w) => {
            push_str(&mut css, "font-weight: ");
            push_str(&mut css, weight_str(w));
            push_str(&mut css, "; ");
        },
        None => {},
    }
    css
}

fn style_part(style: Option<FontStyle>) -> (r: String)
    ensures
        r@ == (match style {
            Some(st) => "font-style: "@ + style_css(st) + "; "@,
            None => Seq::empty(),
        }),
{
    let mut css = String::new();
    match style {
        Some(st) => {
            push_str(&mut css, "font-style: ");
            push_str(&mut css, style_str(st));
            push_str(&mut css, "; ");
        },
        None => {},
    }
    css
}

/// The CSS of the font the PKGBUILD view is set in.
pub fn font_css(f: &FontFields) -> (r: String)
    ensures
        r@ == font_css_spec(*f),
{
    let mut css = family_part(&f.family);
    let b = size_part(f.size);
    push_str(&mut css, b.as_str());
    let c = weight_part(f.weight);
    push_str(&mut css, c.as_str());
    let d = style_part(f.style);
    push_str(&mut css, d.as_str());
    css
}

} // verus!
