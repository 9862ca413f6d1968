//! File paths as the sequence of their components.
use vstd::prelude::*;

verus! {

/// One component of a path.
#[derive(Debug, Eq, PartialEq)]
pub enum PathPart {
    /// A drive or share in front of the root.
    Prefix(String),
    /// The root directory.
    Root,
    /// The directory that a relative path starts from.
    Current,
    /// The directory above.
    Parent,
    /// A directory or file by its name.
    Normal(String),
}

/// The content of a [`PathPart`].
pub enum Part {
    Prefix(Seq<char>),
    Root,
    Current,
    Parent,
    Normal(Seq<char>),
}

impl View for PathPart {
    type V = Part;

    open spec fn view(&self) -> Part {
        match self {
            PathPart::Prefix(text) => Part::Prefix(text@),
            PathPart::Root => Part::Root,
            PathPart::Current => Part::Current,
            PathPart::Parent => Part::Parent,
            PathPart::Normal(name) => Part::Normal(name@),
        }
    }
}

impl Clone for PathPart {
    fn clone(&self) -> (copy: Self)
        ensures
            copy == *self,
    {
        match self {
            PathPart::Prefix(text) => PathPart::Prefix(text.clone()),
            PathPart::Root => PathPart::Root,
            PathPart::Current => PathPart::Current,
            PathPart::Parent => PathPart::Parent,
            PathPart::Normal(name) => PathPart::Normal(name.clone()),
        }
    }
}

impl PathPart {
    /// Whether two components are the same.
    pub fn same(&self, other: &PathPart) -> (equal: bool)
        ensures
            equal == (self@ == other@),
    {
        match (self, other) {
            (PathPart::Prefix(a), PathPart::Prefix(b)) => *a == *b,
            (PathPart::Root, PathPart::Root) => true,
            (PathPart::Current, PathPart::Current) => true,
            (PathPart::Parent, PathPart::Parent) => true,
            (PathPart::Normal(a), PathPart::Normal(b)) => *a == *b,
            _ => false,
        }
    }
}

/// A path.
#[derive(Debug, Eq, PartialEq)]
pub struct FilePath {
    pub parts: Vec<PathPart>,
}

impl View for FilePath {
    type V = Seq<Part>;

    open spec fn view(&self) -> Seq<Part> {
        Seq::new(self.parts@.len(), |i: int| self.parts@[i]@)
    }
}

impl Clone for FilePath {
    fn clone(&self) -> (copy: Self)
        ensures
            copy@ == self@,
    {
        let mut parts: Vec<PathPart> = Vec::new();
        let mut i: usize = 0;
        while i < self.parts.len()
            invariant
                i <= self.parts@.len(),
                parts@ == self.parts@.take(i as int),
            decreases self.parts@.len() - i,
        {
            parts.push(self.parts[i].clone());
            i += 1;
        }
        let copy = FilePath { parts };
        copy
    }
}

impl FilePath {
    /// Whether the path names nothing.
    pub fn is_empty(&self) -> (empty: bool)
        ensures
            empty == (self@.len() == 0),
    {
        self.parts.len() == 0
    }

    /// The path of `name` inside this directory.
    pub fn join(&self, name: &str) -> (path: FilePath)
        ensures
            path@ == self@.push(Part::Normal(name@)),
    {
        let mut path = self.clone();
        path.parts.push(PathPart::Normal(name.to_owned()));
        path
    }

    /// Whether the last component is a name.
    pub open spec fn named(self) -> bool {
        self@.len() > 0 && self@.last() is Normal
    }

    /// The name of what the path leads to.
    pub fn file_name(&self) -> (name: Option<&String>)
        ensures
            match name {
                Some(name) => self.named() && self@.last() == Part::Normal(name@),
                None => !self.named(),
            },
    {
        if self.parts.len() == 0 {
            return None;
        }
        let last: usize = self.parts.len() - 1;
        match &self.parts[last] {
            PathPart::Normal(name) => Some(name),
            _ => None,
        }
    }

    /// What is left of components without the last one, where there is one to leave out.
    pub open spec fn parent_parts(parts: Seq<Part>) -> Option<Seq<Part>> {
        if parts.len() > 0 && !(parts.last() is Root) && !(parts.last() is Prefix) {
            Some(parts.drop_last())
        } else {
            None
        }
    }

    /// The directory that holds what the path leads to.
    pub fn parent(&self) -> (directory: Option<FilePath>)
        ensures
            match directory {
                Some(directory) => Self::parent_parts(self@) == Some(directory@),
                None => Self::parent_parts(self@) is None,
            },
    {
        if self.parts.len() == 0 {
            return None;
        }
        let last: usize = self.parts.len() - 1;
        match &self.parts[last] {
            PathPart::Root | PathPart::Prefix(_) => {
                return None;
            },
            _ => {},
        }
        let mut directory = self.clone();
        let _ = directory.parts.pop();
        Some(directory)
    }

    /// Whether two paths have the same components.
    pub fn same(&self, other: &FilePath) -> (equal: bool)
        ensures
            equal == (self@ == other@),
    {
        if self.parts.len() != other.parts.len() {
            proof {
                assert(self@.len() != other@.len());
            }
            return false;
        }
        let mut i: usize = 0;
        while i < self.parts.len()
            invariant
                i <= self.parts@.len(),
                self.parts@.len() == other.parts@.len(),
                forall|j: int| 0 <= j < i ==> self@[j] == other@[j],
            decreases self.parts@.len() - i,
        {
            if !self.parts[i].same(&other.parts[i]) {
                proof {
                    assert(self@[i as int] != other@[i as int]);
                }
                return false;
            }
            i += 1;
        }
        proof {
            assert(self@ =~= other@);
        }
        true
    }
}

/// Where the user's own files are, given what the environment says: the profile variable comes
/// first on Windows and the home variable elsewhere, and an empty one counts as missing.
pub open spec fn home_choice(
    user_profile: Option<Seq<Part>>,
    home: Option<Seq<Part>>,
    windows: bool,
) -> Option<Seq<Part>> {
    let usable = |path: Option<Seq<Part>>| path is Some && path->Some_0.len() > 0;
    let primary = if windows { user_profile } else { home };
    let fallback = if windows { home } else { user_profile };
    if usable(primary) {
        primary
    } else if usable(fallback) {
        fallback
    } else {
        None
    }
}

/// The components of an optional path.
pub open spec fn parts_of(path: Option<FilePath>) -> Option<Seq<Part>> {
    match path {
        Some(path) => Some(path@),
        None => None,
    }
}

/// The user's home directory.
pub fn home_directory_from(
    user_profile: Option<FilePath>,
    home: Option<FilePath>,
    windows: bool,
) -> (directory: Option<FilePath>)
    ensures
        parts_of(directory) == home_choice(parts_of(user_profile), parts_of(home), windows),
{
    let (primary, fallback) = if windows {
        (user_profile, home)
    } else {
        (home, user_profile)
    };
    if let Some(path) = primary {
        if !path.is_empty() {
            return Some(path);
        }
    }
    if let Some(path) = fallback {
        if !path.is_empty() {
            return Some(path);
        }
    }
    None
}

/// The directory for configuration, state and logs.
pub fn storage_directory_from(
    user_profile: Option<FilePath>,
    home: Option<FilePath>,
    windows: bool,
) -> (directory: Option<FilePath>)
    ensures
        match home_choice(parts_of(user_profile), parts_of(home), windows) {
            Some(home) => parts_of(directory) == Some(home.push(Part::Normal(".captastic"@))),
            None => directory is None,
        },
{
    match home_directory_from(user_profile, home, windows) {
        Some(home) => Some(home.join(".captastic")),
        None => None,
    }
}

/// Where the configuration is when no other place was named.
pub fn default_config_path(storage: Option<&FilePath>) -> (path: Option<FilePath>)
    ensures
        match storage {
            Some(storage) => parts_of(path) == Some(storage@.push(Part::Normal("captastic.toml"@))),
            None => path is None,
        },
{
    match storage {
        Some(storage) => Some(storage.join("captastic.toml")),
        None => None,
    }
}

/// Where captures are saved when no other place was named: beside the user's own pictures.
pub fn default_output_directory(home: Option<&FilePath>) -> (directory: Option<FilePath>)
    ensures
        match home {
            Some(home) => parts_of(directory) == Some(
                home@.push(Part::Normal("Pictures"@)).push(Part::Normal("Captastic"@)),
            ),
            None => directory is None,
        },
{
    match home {
        Some(home) => Some(home.join("Pictures").join("Captastic")),
        None => None,
    }
}

/// What is in a directory has that directory as its parent. A root has none.
pub proof fn law_a_parent_is_where_its_children_are(parts: Seq<Part>, last: Part)
    ensures
        !(last is Root || last is Prefix) ==> FilePath::parent_parts(parts.push(last)) == Some(parts),
        last is Root || last is Prefix ==> FilePath::parent_parts(parts.push(last)) is None,
        FilePath::parent_parts(Seq::empty()) is None,
{
    assert(parts.push(last).drop_last() =~= parts);
}

/// A home is the one that the system names first, the other one where that is not set or empty, and
/// none where neither is of use.
pub proof fn law_a_home_is_the_first_of_use(
    user_profile: Option<Seq<Part>>,
    home: Option<Seq<Part>>,
    windows: bool,
)
    ensures
        ({
            let choice = home_choice(user_profile, home, windows);
            let has_profile = user_profile matches Some(path) && path.len() > 0;
            let has_home = home matches Some(path) && path.len() > 0;
            &&& choice is None <==> !has_profile && !has_home
            &&& has_profile && (windows || !has_home) ==> choice == user_profile
            &&& has_home && (!windows || !has_profile) ==> choice == home
        }),
{
}

} // verus!
