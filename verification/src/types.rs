use vstd::prelude::*;

verus! {

/// A measured amount (hours or minutes) held as the IEEE-754 binary64 bit pattern of
/// the number that ptracker stores. The library carries such amounts from one record
/// to another; the arithmetic on them is done by the application.
#[derive(Clone, Copy, Debug, PartialEq, Eq, Structural)]
pub struct Quantity {
    pub bits: u64,
}

impl Quantity {
    /// The amount zero (the bit pattern of `+0.0` is all zeros).
    pub fn zero() -> (q: Quantity)
        ensures
            q.bits == 0,
    {
        Quantity { bits: 0 }
    }
}

/// A change to a file that a watch session records.
#[derive(Clone, Debug, PartialEq, Eq)]
pub enum FileEvent {
    Created(String),
    Modified(String),
    Renamed(String, String),
    Deleted(String),
}

/// A [`FileEvent`] as a value of the model.
pub enum FileEventView {
    Created(Seq<char>),
    Modified(Seq<char>),
    Renamed(Seq<char>, Seq<char>),
    Deleted(Seq<char>),
}

impl View for FileEvent {
    type V = FileEventView;

    open spec fn view(&self) -> FileEventView {
        match self {
            FileEvent::Created(p) => FileEventView::Created(p@),
            FileEvent::Modified(p) => FileEventView::Modified(p@),
            FileEvent::Renamed(a, b) => FileEventView::Renamed(a@, b@),
            FileEvent::Deleted(p) => FileEventView::Deleted(p@),
        }
    }
}

/// One project in the global registry `projects.json`.
#[derive(Clone, Debug)]
pub struct ProjectEntry {
    pub name: String,
    pub slug: String,
    pub watch_path: String,
    pub created_at: String,
    pub total_hours: Quantity,
}

/// A [`ProjectEntry`] as a value of the model.
pub struct EntryView {
    pub name: Seq<char>,
    pub slug: Seq<char>,
    pub watch_path: Seq<char>,
    pub created_at: Seq<char>,
    pub total_hours: u64,
}

impl View for ProjectEntry {
    type V = EntryView;

    open spec fn view(&self) -> EntryView {
        EntryView {
            name: self.name@,
            slug: self.slug@,
            watch_path: self.watch_path@,
            created_at: self.created_at@,
            total_hours: self.total_hours.bits,
        }
    }
}

/// The global registry of projects.
#[derive(Clone, Debug)]
pub struct PTrackerConfig {
    pub projects: Vec<ProjectEntry>,
}

impl View for PTrackerConfig {
    type V = Seq<EntryView>;

    open spec fn view(&self) -> Seq<EntryView> {
        self.projects@.map_values(|e: ProjectEntry| e@)
    }
}

/// A project, as kept in its own `project.json`.
#[derive(Clone, Debug)]
pub struct Project {
    pub name: String,
    pub slug: String,
    pub watch_path: String,
    pub created_at: String,
    pub total_hours: Quantity,
    pub total_sessions: u32,
}

/// A [`Project`] as a value of the model.
pub struct ProjectView {
    pub name: Seq<char>,
    pub slug: Seq<char>,
    pub watch_path: Seq<char>,
    pub created_at: Seq<char>,
    pub total_hours: u64,
    pub total_sessions: u32,
}

impl View for Project {
    type V = ProjectView;

    open spec fn view(&self) -> ProjectView {
        ProjectView {
            name: self.name@,
            slug: self.slug@,
            watch_path: self.watch_path@,
            created_at: self.created_at@,
            total_hours: self.total_hours.bits,
            total_sessions: self.total_sessions,
        }
    }
}

/// One watch session: when it ran, what it watched and what changed.
#[derive(Clone, Debug)]
pub struct Session {
    pub id: String,
    pub date: String,
    pub start: String,
    pub end: Option<String>,
    pub duration_mins: Option<Quantity>,
    pub watch_path: String,
    pub events: SessionEvents,
    pub totals: SessionTotals,
}

/// The paths that a session saw change, by kind of change, in the order seen.
#[derive(Clone, Debug)]
pub struct SessionEvents {
    pub created: Vec<String>,
    pub modified: Vec<String>,
    pub deleted: Vec<String>,
    pub renamed: Vec<(String, String)>,
}

/// [`SessionEvents`] as a value of the model.
pub struct SessionEventsView {
    pub created: Seq<Seq<char>>,
    pub modified: Seq<Seq<char>>,
    pub deleted: Seq<Seq<char>>,
    pub renamed: Seq<(Seq<char>, Seq<char>)>,
}

impl View for SessionEvents {
    type V = SessionEventsView;

    open spec fn view(&self) -> SessionEventsView {
        SessionEventsView {
            created: self.created@.map_values(|p: String| p@),
            modified: self.modified@.map_values(|p: String| p@),
            deleted: self.deleted@.map_values(|p: String| p@),
            renamed: self.renamed@.map_values(|r: (String, String)| (r.0@, r.1@)),
        }
    }
}

impl Default for SessionEvents {
    fn default() -> (r: SessionEvents)
        ensures
            r.created@.len() == 0,
            r.modified@.len() == 0,
            r.deleted@.len() == 0,
            r.renamed@.len() == 0,
    {
        SessionEvents {
            created: Vec::new(),
            modified: Vec::new(),
            deleted: Vec::new(),
            renamed: Vec::new(),
        }
    }
}

/// How many changes of each kind a session recorded.
#[derive(Clone, Copy, Debug, PartialEq, Eq, Structural)]
pub struct SessionTotals {
    pub created: u32,
    pub modified: u32,
    pub deleted: u32,
    pub renamed: u32,
}

impl Default for SessionTotals {
    fn default() -> (r: SessionTotals)
        ensures
            r.created == 0,
            r.modified == 0,
            r.deleted == 0,
            r.renamed == 0,
    {
        SessionTotals { created: 0, modified: 0, deleted: 0, renamed: 0 }
    }
}

/// The sessions of one day, kept in `sessions/{date}.json`.
#[derive(Clone, Debug)]
pub struct DayLog {
    pub date: String,
    pub sessions: Vec<Session>,
    pub total_hours: Quantity,
}

/// Why an operation of ptracker was refused.
#[derive(Clone, Debug, PartialEq, Eq)]
pub enum TrackerError {
    /// The user's home directory could not be determined.
    NoHomeDirectory,
    /// A project with the same slug is already registered; holds the name asked for.
    AlreadyExists(String),
    /// No registered project has the slug of the name; holds the name asked for.
    NotFound(String),
}

/// The message of an error.
pub open spec fn error_message(e: TrackerError) -> Seq<char> {
    match e {
        TrackerError::NoHomeDirectory => "Could not find home directory"@,
        TrackerError::AlreadyExists(name) => "Project '"@ + name@ + "' already exists."@,
        TrackerError::NotFound(name) => "Project '"@ + name@ + "' not found.\n"@,
    }
}

impl TrackerError {
    /// The message that ptracker shows for this error.
    pub fn message(&self) -> (m: String)
        ensures
            m@ == error_message(*self),
    {
        match self {
            TrackerError::NoHomeDirectory => String::from_str("Could not find home directory"),
            TrackerError::AlreadyExists(name) => {
                let mut m = String::from_str("Project '");
                m.append(name.as_str());
                m.append("' already exists.");
                m
            },
            TrackerError::NotFound(name) => {
                let mut m = String::from_str("Project '");
                m.append(name.as_str());
                m.append("' not found.\n");
                m
            },
        }
    }
}

/// A record that ptracker keeps in a file of its own, and the ways to keep it there.
/// The application implements it for the records it writes to disk.
pub trait StorageBackend {
    /// What goes wrong when the file cannot be read or written.
    type Error;

    fn save(&mut self) -> Result<(), Self::Error>;

    fn load(name: &str) -> Result<Self, Self::Error> where Self: Sized;

    fn update(&mut self) -> Result<(), Self::Error>;

    fn delete(&mut self, name: &str) -> Result<(), Self::Error>;
}

} // verus!
