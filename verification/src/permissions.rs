//! The permissions an admin can hold, and the set of permission names stored
//! for a user.

use vstd::prelude::*;

use crate::text::same_text;

verus! {

/// The permissions the service knows.
#[derive(Clone, Copy, Debug, PartialEq, Eq, Structural)]
pub enum Permission {
    UploadLocalImages,
    ViewAdminStats,
    ManagePermissions,
}

/// Whether a text names one of the known permissions.
pub open spec fn is_permission_name(name: Seq<char>) -> bool {
    ||| name == "upload_local_images"@
    ||| name == "view_admin_stats"@
    ||| name == "manage_permissions"@
}

/// The permission a name stands for.
pub open spec fn permission_named(name: Seq<char>) -> Option<Permission> {
    if name == "upload_local_images"@ {
        Some(Permission::UploadLocalImages)
    } else if name == "view_admin_stats"@ {
        Some(Permission::ViewAdminStats)
    } else if name == "manage_permissions"@ {
        Some(Permission::ManagePermissions)
    } else {
        None
    }
}

impl Permission {
    /// The stored name of a permission.
    pub open spec fn name_text(self) -> Seq<char> {
        match self {
            Permission::UploadLocalImages => "upload_local_images"@,
            Permission::ViewAdminStats => "view_admin_stats"@,
            Permission::ManagePermissions => "manage_permissions"@,
        }
    }

    pub fn name(&self) -> (name: &'static str)
        ensures
            name@ == self.name_text(),
    {
        match self {
            Permission::UploadLocalImages => "upload_local_images",
            Permission::ViewAdminStats => "view_admin_stats",
            Permission::ManagePermissions => "manage_permissions",
        }
    }

    /// The permission a name stands for, or `None` for an unknown name.
    pub fn from_name(name: &str) -> (permission: Option<Permission>)
        ensures
            permission == permission_named(name@),
            permission is Some <==> is_permission_name(name@),
            permission matches Some(p) ==> p.name_text() == name@,
    {
        if same_text(name, "upload_local_images") {
            Some(Permission::UploadLocalImages)
        } else if same_text(name, "view_admin_stats") {
            Some(Permission::ViewAdminStats)
        } else if same_text(name, "manage_permissions") {
            Some(Permission::ManagePermissions)
        } else {
            None
        }
    }
}

/// Every known permission, in the order the service grants them.
pub open spec fn all_permissions_seq() -> Seq<Permission> {
    seq![Permission::UploadLocalImages, Permission::ViewAdminStats, Permission::ManagePermissions]
}

pub fn all_permissions() -> (permissions: Vec<Permission>)
    ensures
        permissions@ == all_permissions_seq(),
{
    let mut permissions: Vec<Permission> = Vec::new();
    permissions.push(Permission::UploadLocalImages);
    permissions.push(Permission::ViewAdminStats);
    permissions.push(Permission::ManagePermissions);
    permissions
}

/// The characters of each name of a list of names.
pub open spec fn name_texts(names: Seq<String>) -> Seq<Seq<char>> {
    names.map_values(|name: String| name@)
}

/// Whether a list of names holds a name.
fn holds_name(names: &Vec<String>, name: &str) -> (found: bool)
    ensures
        found == name_texts(names@).contains(name@),
{
    let mut i: usize = 0;
    while i < names.len()
        invariant
            i <= names@.len(),
            forall|j: int| 0 <= j < i ==> names@[j]@ != name@,
        decreases names@.len() - i,
    {
        if same_text(names[i].as_str(), name) {
            assert(name_texts(names@)[i as int] == name@);
            return true;
        }
        i = i + 1;
    }
    assert forall|j: int| 0 <= j < name_texts(names@).len() implies name_texts(names@)[j]
        != name@ by {
        assert(names@[j]@ != name@);
    }
    false
}

/// The distinct permission names stored for a user (the rows of the
/// permission table, each name once).
#[derive(Debug)]
pub struct PermissionNames {
    names: Vec<String>,
}

impl View for PermissionNames {
    type V = Set<Seq<char>>;

    closed spec fn view(&self) -> Set<Seq<char>> {
        name_texts(self.names@).to_set()
    }
}

impl PermissionNames {
    #[verifier::type_invariant]
    closed spec fn names_are_distinct(self) -> bool {
        name_texts(self.names@).no_duplicates()
    }

    /// No permission names.
    pub fn new() -> (set: PermissionNames)
        ensures
            set@ == Set::<Seq<char>>::empty(),
    {
        let set = PermissionNames { names: Vec::new() };
        assert(name_texts(set.names@) =~= Seq::<Seq<char>>::empty());
        assert(set@ =~= Set::<Seq<char>>::empty());
        set
    }

    /// Collects the names of stored rows, keeping each name once.
    pub fn from_names(rows: Vec<String>) -> (set: PermissionNames)
        ensures
            set@ == name_texts(rows@).to_set(),
    {
        let mut kept: Vec<String> = Vec::new();
        let mut i: usize = 0;
        while i < rows.len()
            invariant
                i <= rows@.len(),
                name_texts(kept@).no_duplicates(),
                name_texts(kept@).to_set() == name_texts(rows@.take(i as int)).to_set(),
            decreases rows@.len() - i,
        {
            let ghost before = name_texts(kept@);
            assert(name_texts(rows@.take(i + 1)) =~= name_texts(rows@.take(i as int)).push(
                rows@[i as int]@,
            ));
            proof {
                name_texts(rows@.take(i as int)).lemma_push_to_set_commute(rows@[i as int]@);
            }
            if !holds_name(&kept, rows[i].as_str()) {
                kept.push(rows[i].clone());
                assert(name_texts(kept@) =~= before.push(rows@[i as int]@));
                proof {
                    before.lemma_push_to_set_commute(rows@[i as int]@);
                    assert forall|a: int, b: int|
                        0 <= a < b < name_texts(kept@).len() implies name_texts(kept@)[a]
                        != name_texts(kept@)[b] by {
                        if b == before.len() {
                            assert(before[a] == name_texts(kept@)[a]);
                            assert(before.contains(before[a]));
                        }
                    }
                }
            } else {
                assert(before.to_set().contains(rows@[i as int]@));
                assert(before.to_set().insert(rows@[i as int]@) =~= before.to_set());
            }
            i = i + 1;
        }
        assert(rows@.take(rows@.len() as int) =~= rows@);
        PermissionNames { names: kept }
    }

    /// Whether the set holds a name.
    pub fn contains(&self, name: &str) -> (found: bool)
        ensures
            found == self@.contains(name@),
    {
        holds_name(&self.names, name)
    }

    /// The number of distinct names.
    pub fn len(&self) -> (count: usize)
        ensures
            count == self@.len(),
    {
        proof {
            use_type_invariant(self);
            name_texts(self.names@).unique_seq_to_set();
        }
        self.names.len()
    }

    pub fn is_empty(&self) -> (empty: bool)
        ensures
            empty == (self@.len() == 0),
    {
        self.len() == 0
    }
}

/// A permission stored twice counts once: repeating a name in the stored
/// rows does not change the set of permission names.
pub proof fn lemma_repeated_name_counts_once(rows: Seq<String>, name: String)
    ensures
        name_texts(rows.push(name).push(name)).to_set() == name_texts(rows.push(name)).to_set(),
{
    let once = name_texts(rows.push(name));
    assert(name_texts(rows.push(name).push(name)) =~= once.push(name@));
    once.lemma_push_to_set_commute(name@);
    name_texts(rows).lemma_push_to_set_commute(name@);
    assert(once =~= name_texts(rows).push(name@));
    assert(once.to_set().insert(name@) =~= once.to_set());
}

} // verus!
