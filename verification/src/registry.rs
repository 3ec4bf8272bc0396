use crate::slug::{slug_of, to_slug};
use crate::types::{EntryView, PTrackerConfig, Project, ProjectEntry, ProjectView, Quantity, TrackerError};
use vstd::prelude::*;

verus! {

/// A new project with the given name, watch path and creation time: no hours, no sessions.
pub open spec fn new_project(name: Seq<char>, watch_path: Seq<char>, created_at: Seq<char>) -> ProjectView {
    ProjectView {
        name,
        slug: slug_of(name),
        watch_path,
        created_at,
        total_hours: 0,
        total_sessions: 0,
    }
}

/// The registry entry written for a newly initialized project.
pub open spec fn entry_for(p: ProjectView) -> EntryView {
    EntryView {
        name: p.name,
        slug: p.slug,
        watch_path: p.watch_path,
        created_at: p.created_at,
        total_hours: 0,
    }
}

/// The watch path that `init` uses: the one given, else the current directory.
pub open spec fn init_watch_path(watch_path: Option<Seq<char>>) -> Seq<char> {
    match watch_path {
        Some(p) => p,
        None => "."@,
    }
}

/// Some entry of the registry has this slug.
pub open spec fn has_slug(entries: Seq<EntryView>, slug: Seq<char>) -> bool {
    exists|i: int| 0 <= i < entries.len() && #[trigger] entries[i].slug == slug
}

/// `i` is the first entry of the registry with this slug.
pub open spec fn first_with_slug(entries: Seq<EntryView>, slug: Seq<char>, i: int) -> bool {
    &&& 0 <= i < entries.len()
    &&& entries[i].slug == slug
    &&& forall|k: int| 0 <= k < i ==> #[trigger] entries[k].slug != slug
}

/// No two entries of the registry have the same slug.
pub open spec fn slugs_unique(entries: Seq<EntryView>) -> bool {
    forall|i: int, j: int|
        0 <= i < entries.len() && 0 <= j < entries.len() && i != j ==> #[trigger] entries[i].slug
            != #[trigger] entries[j].slug
}

/// An entry renamed: new name and the slug of the new name, the rest kept.
pub open spec fn renamed_entry(e: EntryView, new_name: Seq<char>) -> EntryView {
    EntryView { name: new_name, slug: slug_of(new_name), ..e }
}

/// An entry with its total hours replaced.
pub open spec fn entry_with_hours(e: EntryView, hours: u64) -> EntryView {
    EntryView { total_hours: hours, ..e }
}

/// The option of a string slice, as a value of the model.
pub open spec fn opt_view(o: Option<&str>) -> Option<Seq<char>> {
    match o {
        Some(s) => Some(s@),
        None => None,
    }
}

impl Project {
    /// A new project created at `created_at` (local time, as `%Y-%m-%d %H:%M:%S`),
    /// with the slug of its name, no hours and no sessions.
    pub fn new(name: &str, watch_path: &str, created_at: String) -> (p: Project)
        ensures
            p@ == new_project(name@, watch_path@, created_at@),
    {
        Project {
            name: String::from_str(name),
            slug: to_slug(name),
            watch_path: String::from_str(watch_path),
            created_at,
            total_hours: Quantity::zero(),
            total_sessions: 0,
        }
    }

    /// Gives the project a new name, and the slug of that name.
    pub fn rename_to(&mut self, new_name: &str)
        ensures
            final(self)@ == (ProjectView {
                name: new_name@,
                slug: slug_of(new_name@),
                ..old(self)@
            }),
    {
        self.name = String::from_str(new_name);
        self.slug = to_slug(new_name);
    }

    /// Counts one more finished session and sets the hours to their new total.
    pub fn add_session(&mut self, total_hours: Quantity)
        requires
            old(self).total_sessions < u32::MAX,
        ensures
            final(self)@ == (ProjectView {
                total_hours: total_hours.bits,
                total_sessions: (old(self).total_sessions + 1) as u32,
                ..old(self)@
            }),
    {
        self.total_sessions = self.total_sessions + 1;
        self.total_hours = total_hours;
    }

    /// The folder that a watch session watches: the one given, else the project's own.
    pub fn watch_target(&self, path: Option<&str>) -> (t: String)
        ensures
            t@ == (match path {
                Some(p) => p@,
                None => self.watch_path@,
            }),
    {
        match path {
            Some(p) => String::from_str(p),
            None => self.watch_path.clone(),
        }
    }

    /// The registry entry for this project, as `init` writes it (no hours yet).
    pub fn to_entry(&self) -> (e: ProjectEntry)
        ensures
            e@ == entry_for(self@),
    {
        ProjectEntry {
            name: self.name.clone(),
            slug: self.slug.clone(),
            watch_path: self.watch_path.clone(),
            created_at: self.created_at.clone(),
            total_hours: Quantity::zero(),
        }
    }
}

impl ProjectEntry {
    fn copy(&self) -> (e: ProjectEntry)
        ensures
            e@ == self@,
    {
        ProjectEntry {
            name: self.name.clone(),
            slug: self.slug.clone(),
            watch_path: self.watch_path.clone(),
            created_at: self.created_at.clone(),
            total_hours: self.total_hours,
        }
    }
}

impl PTrackerConfig {
    /// An empty registry.
    pub fn empty() -> (c: PTrackerConfig)
        ensures
            c@ == Seq::<EntryView>::empty(),
    {
        let c = PTrackerConfig { projects: Vec::new() };
        assert(c@ =~= Seq::<EntryView>::empty());
        c
    }

    /// The index of the first project with this slug, if any.
    pub fn find_slug(&self, slug: &str) -> (r: Option<usize>)
        ensures
            match r {
                Some(i) => first_with_slug(self@, slug@, i as int),
                None => !has_slug(self@, slug@),
            },
    {
        let n = self.projects.len();
        let target = String::from_str(slug);
        let mut i: usize = 0;
        while i < n
            invariant
                n == self.projects@.len(),
                i <= n,
                target@ == slug@,
                forall|k: int| 0 <= k < i ==> #[trigger] self@[k].slug != slug@,
            decreases n - i,
        {
            if self.projects[i].slug == target {
                return Some(i);
            }
            i = i + 1;
        }
        assert forall|k: int| 0 <= k < self@.len() implies #[trigger] self@[k].slug != slug@ by {}
        None
    }

    /// Whether a project with this slug is registered.
    pub fn contains_slug(&self, slug: &str) -> (b: bool)
        ensures
            b == has_slug(self@, slug@),
    {
        self.find_slug(slug).is_some()
    }

    /// Registers a new project named `name` that watches `watch_path` (the current
    /// directory when none is given), created at `created_at`. Refused when a project
    /// with the same slug is already registered.
    pub fn init_project(&mut self, name: &str, watch_path: Option<&str>, created_at: String) -> (r:
        Result<Project, TrackerError>)
        ensures
            has_slug(old(self)@, slug_of(name@)) ==> {
                &&& r matches Err(TrackerError::AlreadyExists(n)) && n@ == name@
                &&& final(self)@ == old(self)@
            },
            !has_slug(old(self)@, slug_of(name@)) ==> {
                &&& r matches Ok(p) && p@ == new_project(
                    name@,
                    init_watch_path(opt_view(watch_path)),
                    created_at@,
                ) && final(self)@ == old(self)@.push(entry_for(p@))
            },
    {
        let slug = to_slug(name);
        if self.contains_slug(slug.as_str()) {
            return Err(TrackerError::AlreadyExists(String::from_str(name)));
        }
        let path = match watch_path {
            Some(p) => p,
            None => ".",
        };
        let project = Project::new(name, path, created_at);
        let entry = project.to_entry();
        let ghost before = self@;
        self.projects.push(entry);
        assert(self@ =~= before.push(entry_for(project@)));
        Ok(project)
    }

    /// Renames the first project with the slug of `old_name`: it takes `new_name` and
    /// the slug of `new_name`. Refused when no project has the slug of `old_name`.
    pub fn rename_project(&mut self, old_name: &str, new_name: &str) -> (r: Result<
        (),
        TrackerError,
    >)
        ensures
            has_slug(old(self)@, slug_of(old_name@)) ==> {
                &&& r is Ok
                &&& exists|i: int|
                    first_with_slug(old(self)@, slug_of(old_name@), i) && final(self)@ == old(
                        self,
                    )@.update(i, renamed_entry(old(self)@[i], new_name@))
                    && final(self)@[i].name == new_name@
                    && final(self)@[i].slug == slug_of(new_name@)
                    && final(self)@[i].watch_path == old(self)@[i].watch_path
                    && final(self)@[i].created_at == old(self)@[i].created_at
                    && final(self)@[i].total_hours == old(self)@[i].total_hours
            },
            !has_slug(old(self)@, slug_of(old_name@)) ==> {
                &&& r matches Err(TrackerError::NotFound(n)) && n@ == old_name@
                &&& final(self)@ == old(self)@
            },
    {
        let old_slug = to_slug(old_name);
        match self.find_slug(old_slug.as_str()) {
            None => Err(TrackerError::NotFound(String::from_str(old_name))),
            Some(i) => {
                let ghost before = self@;
                let current = self.projects[i].copy();
                let entry = ProjectEntry {
                    name: String::from_str(new_name),
                    slug: to_slug(new_name),
                    ..current
                };
                self.projects.set(i, entry);
                assert(self@ =~= before.update(i as int, renamed_entry(before[i as int], new_name@)));
                Ok(())
            },
        }
    }

    /// Removes the first project with the slug of `name` and gives its entry back.
    /// Refused when no project has that slug.
    pub fn remove_project(&mut self, name: &str) -> (r: Result<ProjectEntry, TrackerError>)
        ensures
            has_slug(old(self)@, slug_of(name@)) ==> {
                &&& r is Ok
                &&& exists|i: int|
                    first_with_slug(old(self)@, slug_of(name@), i) && final(self)@ == old(
                        self,
                    )@.remove(i) && r->Ok_0@ == old(self)@[i]
            },
            !has_slug(old(self)@, slug_of(name@)) ==> {
                &&& r matches Err(TrackerError::NotFound(n)) && n@ == name@
                &&& final(self)@ == old(self)@
            },
    {
        let slug = to_slug(name);
        match self.find_slug(slug.as_str()) {
            None => Err(TrackerError::NotFound(String::from_str(name))),
            Some(i) => {
                let ghost before = self.projects@;
                let removed = self.projects.remove(i);
                assert(self@ =~= before.map_values(|e: ProjectEntry| e@).remove(i as int));
                Ok(removed)
            },
        }
    }

    /// Sets the total hours of the first project with this slug; does nothing when
    /// no project has it.
    pub fn update_hours(&mut self, slug: &str, total_hours: Quantity)
        ensures
            has_slug(old(self)@, slug@) ==> exists|i: int|
                first_with_slug(old(self)@, slug@, i) && final(self)@ == old(self)@.update(
                    i,
                    entry_with_hours(old(self)@[i], total_hours.bits),
                ),
            !has_slug(old(self)@, slug@) ==> final(self)@ == old(self)@,
    {
        match self.find_slug(slug) {
            None => {},
            Some(i) => {
                let ghost before = self@;
                let current = self.projects[i].copy();
                let entry = ProjectEntry { total_hours, ..current };
                self.projects.set(i, entry);
                assert(self@ =~= before.update(
                    i as int,
                    entry_with_hours(before[i as int], total_hours.bits),
                ));
            },
        }
    }
}

/// Once a project is initialized, its slug is taken: initializing a project of the
/// same name again is refused.
pub proof fn initialized_name_is_taken(
    entries: Seq<EntryView>,
    name: Seq<char>,
    watch_path: Seq<char>,
    created_at: Seq<char>,
)
    ensures
        has_slug(entries.push(entry_for(new_project(name, watch_path, created_at))), slug_of(name)),
{
    let after = entries.push(entry_for(new_project(name, watch_path, created_at)));
    assert(after[entries.len() as int].slug == slug_of(name));
}

/// Initializing a project keeps the slugs of the registry distinct.
pub proof fn init_keeps_slugs_unique(entries: Seq<EntryView>, p: ProjectView)
    requires
        slugs_unique(entries),
        !has_slug(entries, p.slug),
    ensures
        slugs_unique(entries.push(entry_for(p))),
{
    let after = entries.push(entry_for(p));
    assert forall|i: int, j: int|
        0 <= i < after.len() && 0 <= j < after.len() && i != j implies #[trigger] after[i].slug
        != #[trigger] after[j].slug by {
        if i < entries.len() && j < entries.len() {
            assert(after[i] == entries[i] && after[j] == entries[j]);
        } else if i < entries.len() {
            assert(after[i] == entries[i]);
        } else {
            assert(after[j] == entries[j]);
        }
    }
}

/// Deleting a project keeps the slugs of the registry distinct.
pub proof fn delete_keeps_slugs_unique(entries: Seq<EntryView>, i: int)
    requires
        slugs_unique(entries),
        0 <= i < entries.len(),
    ensures
        slugs_unique(entries.remove(i)),
{
    let after = entries.remove(i);
    assert forall|a: int, b: int|
        0 <= a < after.len() && 0 <= b < after.len() && a != b implies #[trigger] after[a].slug
        != #[trigger] after[b].slug by {
        let a2 = if a < i { a } else { a + 1 };
        let b2 = if b < i { b } else { b + 1 };
        assert(after[a] == entries[a2] && after[b] == entries[b2]);
    }
}

/// In a registry with distinct slugs, a deleted project is gone: no entry has its
/// slug any more.
pub proof fn deleted_project_is_gone(entries: Seq<EntryView>, slug: Seq<char>, i: int)
    requires
        slugs_unique(entries),
        first_with_slug(entries, slug, i),
    ensures
        !has_slug(entries.remove(i), slug),
{
    let after = entries.remove(i);
    assert forall|a: int| 0 <= a < after.len() implies #[trigger] after[a].slug != slug by {
        let a2 = if a < i { a } else { a + 1 };
        assert(after[a] == entries[a2]);
        assert(entries[a2].slug != entries[i].slug);
    }
}

/// A renamed project is found under the slug of its new name; in a registry with
/// distinct slugs, it is no longer found under its old slug when that differs.
pub proof fn renamed_project_moves_slug(
    entries: Seq<EntryView>,
    old_slug: Seq<char>,
    i: int,
    new_name: Seq<char>,
)
    requires
        first_with_slug(entries, old_slug, i),
    ensures
        has_slug(entries.update(i, renamed_entry(entries[i], new_name)), slug_of(new_name)),
        slugs_unique(entries) && slug_of(new_name) != old_slug ==> !has_slug(
            entries.update(i, renamed_entry(entries[i], new_name)),
            old_slug,
        ),
{
    let after = entries.update(i, renamed_entry(entries[i], new_name));
    assert(after[i].slug == slug_of(new_name));
    if slugs_unique(entries) && slug_of(new_name) != old_slug {
        assert forall|a: int| 0 <= a < after.len() implies #[trigger] after[a].slug != old_slug by {
            if a != i {
                assert(after[a] == entries[a]);
                assert(entries[a].slug != entries[i].slug);
            }
        }
    }
}

/// Renaming a project keeps the slugs of the registry distinct when the new slug is
/// free or is the project's own. (Renaming does not check this: renaming onto the
/// slug of another project leaves two entries with that slug.)
pub proof fn rename_keeps_slugs_unique(entries: Seq<EntryView>, i: int, new_name: Seq<char>)
    requires
        slugs_unique(entries),
        0 <= i < entries.len(),
        !has_slug(entries, slug_of(new_name)) || entries[i].slug == slug_of(new_name),
    ensures
        slugs_unique(entries.update(i, renamed_entry(entries[i], new_name))),
{
    let after = entries.update(i, renamed_entry(entries[i], new_name));
    assert forall|a: int, b: int|
        0 <= a < after.len() && 0 <= b < after.len() && a != b implies #[trigger] after[a].slug
        != #[trigger] after[b].slug by {
        if a != i && b != i {
            assert(after[a] == entries[a] && after[b] == entries[b]);
        } else if a == i {
            assert(after[b] == entries[b]);
            assert(entries[b].slug != entries[i].slug);
        } else {
            assert(after[a] == entries[a]);
            assert(entries[a].slug != entries[i].slug);
        }
    }
}

/// Setting a project's hours: the project is still found first under its slug and
/// has the new hours; nothing else in the registry changes, so distinct slugs stay
/// distinct.
pub proof fn updated_hours_read_back(entries: Seq<EntryView>, slug: Seq<char>, i: int, hours: u64)
    requires
        first_with_slug(entries, slug, i),
    ensures
        first_with_slug(entries.update(i, entry_with_hours(entries[i], hours)), slug, i),
        entries.update(i, entry_with_hours(entries[i], hours))[i].total_hours == hours,
        slugs_unique(entries) ==> slugs_unique(entries.update(i, entry_with_hours(entries[i], hours))),
{
    let after = entries.update(i, entry_with_hours(entries[i], hours));
    assert forall|k: int| 0 <= k < i implies #[trigger] after[k].slug != slug by {
        assert(after[k] == entries[k]);
    }
    if slugs_unique(entries) {
        assert forall|a: int, b: int|
            0 <= a < after.len() && 0 <= b < after.len() && a != b implies #[trigger] after[a].slug
            != #[trigger] after[b].slug by {
            assert(after[a].slug == entries[a].slug && after[b].slug == entries[b].slug);
        }
    }
}

/// A project's own record and its registry entry name it alike: so they are written
/// by `init`, and renaming both with the same new name keeps them so.
pub proof fn project_and_entry_agree(p: ProjectView, e: EntryView, new_name: Seq<char>)
    ensures
        entry_for(p).name == p.name && entry_for(p).slug == p.slug,
        p.name == e.name && p.slug == e.slug ==> {
            let q = ProjectView { name: new_name, slug: slug_of(new_name), ..p };
            let f = renamed_entry(e, new_name);
            q.name == f.name && q.slug == f.slug
        },
{
}

/// Deleting a project just initialized gives the registry back as it was before.
pub proof fn delete_after_init_restores(entries: Seq<EntryView>, p: ProjectView, i: int)
    requires
        !has_slug(entries, p.slug),
        first_with_slug(entries.push(entry_for(p)), p.slug, i),
    ensures
        i == entries.len(),
        entries.push(entry_for(p)).remove(i) == entries,
{
    let after = entries.push(entry_for(p));
    if i < entries.len() {
        assert(after[i] == entries[i]);
    }
    assert(after.remove(i) =~= entries);
}

/// Renaming changes only the name and the slug of the renamed entry: its watch path,
/// creation time and hours stay, and every other entry stays as it was.
pub proof fn rename_keeps_entry_data(entries: Seq<EntryView>, i: int, new_name: Seq<char>)
    requires
        0 <= i < entries.len(),
    ensures
        entries.update(i, renamed_entry(entries[i], new_name)).len() == entries.len(),
        entries.update(i, renamed_entry(entries[i], new_name))[i].name == new_name,
        entries.update(i, renamed_entry(entries[i], new_name))[i].slug == slug_of(new_name),
        entries.update(i, renamed_entry(entries[i], new_name))[i].watch_path == entries[i].watch_path,
        entries.update(i, renamed_entry(entries[i], new_name))[i].created_at == entries[i].created_at,
        entries.update(i, renamed_entry(entries[i], new_name))[i].total_hours == entries[i].total_hours,
        forall|k: int|
            0 <= k < entries.len() && k != i ==> #[trigger] entries.update(
                i,
                renamed_entry(entries[i], new_name),
            )[k] == entries[k],
{
}

} // verus!
