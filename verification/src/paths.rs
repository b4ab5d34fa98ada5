//! Places in the file system, before they are looked up.

use vstd::prelude::*;

use crate::lines::{blank, lemma_trimmed_is, tight};
use crate::text::{has_prefix, lemma_texts_push, same_text, strip_prefix, texts, trim, trimmed};

verus! {

/// Where a location starts: at the user's home directory, or at a path as given.
#[derive(Debug)]
pub enum Anchor {
    Home,
    Fixed(String),
}

/// A place in the file system: a starting point, and the names joined to it one by one.
#[derive(Debug)]
pub struct Location {
    pub anchor: Anchor,
    pub tail: Vec<String>,
}

pub enum AnchorView {
    Home,
    Fixed(Seq<char>),
}

#[verifier::ext_equal]
pub struct LocationView {
    pub anchor: AnchorView,
    pub tail: Seq<Seq<char>>,
}

impl View for Anchor {
    type V = AnchorView;

    open spec fn view(&self) -> AnchorView {
        match self {
            Anchor::Home => AnchorView::Home,
            Anchor::Fixed(path) => AnchorView::Fixed(path@),
        }
    }
}

impl View for Location {
    type V = LocationView;

    open spec fn view(&self) -> LocationView {
        LocationView { anchor: self.anchor@, tail: texts(self.tail@) }
    }
}

impl LocationView {
    /// The place `name` below this one.
    pub open spec fn child(self, name: Seq<char>) -> LocationView {
        LocationView { anchor: self.anchor, tail: self.tail.push(name) }
    }
}

/// The user's home directory.
pub open spec fn home_dir() -> LocationView {
    LocationView { anchor: AnchorView::Home, tail: seq![] }
}

/// A path as given.
pub open spec fn fixed(path: Seq<char>) -> LocationView {
    LocationView { anchor: AnchorView::Fixed(path), tail: seq![] }
}

/// The home directory is needed and could not be determined.
#[derive(Debug, Clone, Copy, PartialEq, Eq, Structural)]
pub struct HomeUnknown;

impl HomeUnknown {
    /// What to tell the user.
    pub fn message(&self) -> (r: String)
        ensures
            r@ == "could not determine the home directory"@,
    {
        "could not determine the home directory".to_string()
    }
}

impl Clone for Anchor {
    fn clone(&self) -> (r: Self)
        ensures
            r@ == self@,
    {
        match self {
            Anchor::Home => Anchor::Home,
            Anchor::Fixed(path) => Anchor::Fixed(path.clone()),
        }
    }
}

impl Clone for Location {
    fn clone(&self) -> (r: Self)
        ensures
            r@ == self@,
    {
        Location { anchor: self.anchor.clone(), tail: copy_texts(&self.tail) }
    }
}

/// The same strings again.
pub fn copy_texts(v: &Vec<String>) -> (r: Vec<String>)
    ensures
        texts(r@) == texts(v@),
{
    let mut r: Vec<String> = Vec::new();
    let mut i: usize = 0;
    while i < v.len()
        invariant
            i <= v@.len(),
            r@ == v@.take(i as int),
        decreases v@.len() - i,
    {
        r.push(v[i].clone());
        i += 1;
    }
    assert(v@.take(i as int) =~= v@);
    r
}

impl Location {
    /// The user's home directory.
    pub fn home() -> (r: Location)
        ensures
            r@ == home_dir(),
    {
        let r = Location { anchor: Anchor::Home, tail: Vec::new() };
        assert(r@ =~= home_dir());
        r
    }

    /// A path as given.
    pub fn at(path: &str) -> (r: Location)
        ensures
            r@ == fixed(path@),
    {
        let r = Location { anchor: Anchor::Fixed(path.to_string()), tail: Vec::new() };
        assert(r@ =~= fixed(path@));
        r
    }

    /// The place `name` below this one.
    pub fn join(&self, name: &str) -> (r: Location)
        ensures
            r@ == self@.child(name@),
    {
        let mut r = self.clone();
        let last = name.to_string();
        proof {
            lemma_texts_push(r.tail@, last);
        }
        r.tail.push(last);
        r
    }
}

/// The directory that a setting names, white space around it ignored; where the setting is
/// missing or blank, the directory `name` below the home directory, if that is known.
pub open spec fn setting_or_home(
    value: Option<Seq<char>>,
    home_known: bool,
    name: Seq<char>,
) -> Result<LocationView, HomeUnknown> {
    if value is Some && trimmed(value->0).len() > 0 {
        Ok(fixed(trimmed(value->0)))
    } else if home_known {
        Ok(home_dir().child(name))
    } else {
        Err(HomeUnknown)
    }
}

/// The contents of a string that may be missing.
pub open spec fn opt_text(value: Option<&str>) -> Option<Seq<char>> {
    match value {
        Some(text) => Some(text@),
        None => None,
    }
}

/// The view of a location, or the error.
pub open spec fn location_result(r: Result<Location, HomeUnknown>) -> Result<
    LocationView,
    HomeUnknown,
> {
    match r {
        Ok(place) => Ok(place@),
        Err(e) => Err(e),
    }
}

/// The directory that a setting names, or `name` below the home directory.
pub fn resolve_setting(value: Option<&str>, home_known: bool, name: &str) -> (r: Result<
    Location,
    HomeUnknown,
>)
    ensures
        location_result(r) == setting_or_home(opt_text(value), home_known, name@),
{
    if let Some(text) = value {
        let given = trim(text);
        if !given.is_empty() {
            return Ok(Location::at(given));
        }
    }
    if home_known {
        Ok(Location::home().join(name))
    } else {
        Err(HomeUnknown)
    }
}

/// A path with a leading `~` read as the home directory.
pub open spec fn tilde_expanded(path: Seq<char>, home_known: bool) -> Result<
    LocationView,
    HomeUnknown,
> {
    if path == "~"@ || has_prefix(path, "~/"@) {
        if !home_known {
            Err(HomeUnknown)
        } else if path == "~"@ {
            Ok(home_dir())
        } else {
            Ok(home_dir().child(path.skip(2)))
        }
    } else {
        Ok(fixed(path))
    }
}

/// Reads a leading `~` as the home directory.
pub fn expand_tilde(path: &str, home_known: bool) -> (r: Result<Location, HomeUnknown>)
    ensures
        location_result(r) == tilde_expanded(path@, home_known),
{
    proof {
        reveal_strlit("~");
        reveal_strlit("~/");
    }
    if same_text(path, "~") {
        return if home_known {
            Ok(Location::home())
        } else {
            Err(HomeUnknown)
        };
    }
    match strip_prefix(path, "~/") {
        Some(remainder) => if home_known {
            Ok(Location::home().join(remainder))
        } else {
            Err(HomeUnknown)
        },
        None => Ok(Location::at(path)),
    }
}

/// A setting names the place that it holds, without the white space around it. Without a setting,
/// or with a blank one, the place is below the home directory, which must then be known.
pub proof fn law_setting_names_the_place(
    lead: Seq<char>,
    path: Seq<char>,
    trail: Seq<char>,
    home_known: bool,
    name: Seq<char>,
)
    requires
        blank(lead),
        blank(trail),
        tight(path),
    ensures
        path.len() > 0 ==> setting_or_home(Some(lead + path + trail), home_known, name) == Ok::<
            LocationView,
            HomeUnknown,
        >(fixed(path)),
        path.len() == 0 ==> setting_or_home(Some(lead + path + trail), home_known, name)
            == setting_or_home(None, home_known, name),
        setting_or_home(None, true, name) == Ok::<LocationView, HomeUnknown>(
            LocationView { anchor: AnchorView::Home, tail: seq![name] },
        ),
        setting_or_home(None, false, name) is Err,
{
    lemma_trimmed_is(lead, path, trail);
    assert(Seq::<Seq<char>>::empty().push(name) =~= seq![name]);
}

/// A path behind a tilde and a slash is the same path below the home directory; the tilde alone is
/// that directory, and a path without one is taken as it is. Only with a tilde must the directory
/// be known.
pub proof fn law_tilde_stands_for_home(rest: Seq<char>, path: Seq<char>, home_known: bool)
    ensures
        tilde_expanded(seq!['~', '/'] + rest, true) == Ok::<LocationView, HomeUnknown>(
            LocationView { anchor: AnchorView::Home, tail: seq![rest] },
        ),
        tilde_expanded(seq!['~'], true) == Ok::<LocationView, HomeUnknown>(home_dir()),
        path.len() == 0 || path[0] != '~' || (path.len() > 1 && path[1] != '/') ==> tilde_expanded(
            path,
            home_known,
        ) == Ok::<LocationView, HomeUnknown>(fixed(path)),
        tilde_expanded(seq!['~', '/'] + rest, false) is Err,
        tilde_expanded(seq!['~'], false) is Err,
{
    reveal_strlit("~");
    reveal_strlit("~/");
    let slashed = seq!['~', '/'] + rest;
    assert(seq!['~'] =~= "~"@);
    assert(slashed.take(2) =~= "~/"@);
    assert(slashed.skip(2) =~= rest);
    assert(slashed.len() != "~"@.len());
    assert(Seq::<Seq<char>>::empty().push(rest) =~= seq![rest]);
    if has_prefix(path, "~/"@) {
        assert(path.take(2) == "~/"@);
        assert(path.take(2)[0] == path[0]);
        assert(path.take(2)[1] == path[1]);
    }
}

} // verus!
