//! Permissions granted by a Shared Access Signature.

use vstd::prelude::*;
use crate::text::push_char;

verus! {

/// The number of distinct permissions a SAS can grant.
pub const PERMISSION_COUNT: usize = 14;

/// The permission letters in the canonical order in which they are written:
/// `racwdxytlmeopi`.
pub open spec fn canonical_letters() -> Seq<char> {
    Seq::new(PERMISSION_COUNT as nat, |i: int| canonical_letter(i))
}

/// The letter at position `i` of the canonical order `racwdxytlmeopi`.
pub open spec fn canonical_letter(i: int) -> char {
    if i == 0 {
        'r'
    } else if i == 1 {
        'a'
    } else if i == 2 {
        'c'
    } else if i == 3 {
        'w'
    } else if i == 4 {
        'd'
    } else if i == 5 {
        'x'
    } else if i == 6 {
        'y'
    } else if i == 7 {
        't'
    } else if i == 8 {
        'l'
    } else if i == 9 {
        'm'
    } else if i == 10 {
        'e'
    } else if i == 11 {
        'o'
    } else if i == 12 {
        'p'
    } else {
        'i'
    }
}

/// The letters of the granted permissions among the first `n` positions of the
/// canonical order, in that order.
pub open spec fn letters_upto(flags: Seq<bool>, n: int) -> Seq<char>
    decreases n,
{
    if n <= 0 {
        Seq::empty()
    } else if flags[n - 1] {
        letters_upto(flags, n - 1).push(canonical_letter(n - 1))
    } else {
        letters_upto(flags, n - 1)
    }
}

/// The SAS permission string of a set of granted permissions, given as one flag per
/// position of the canonical order.
pub open spec fn permission_letters(flags: Seq<bool>) -> Seq<char> {
    letters_upto(flags, PERMISSION_COUNT as int)
}

/// The position of a permission letter in the canonical order, or `-1` for a
/// character that is not a permission letter.
pub open spec fn canonical_rank(c: char) -> int {
    if c == 'r' {
        0
    } else if c == 'a' {
        1
    } else if c == 'c' {
        2
    } else if c == 'w' {
        3
    } else if c == 'd' {
        4
    } else if c == 'x' {
        5
    } else if c == 'y' {
        6
    } else if c == 't' {
        7
    } else if c == 'l' {
        8
    } else if c == 'm' {
        9
    } else if c == 'e' {
        10
    } else if c == 'o' {
        11
    } else if c == 'p' {
        12
    } else if c == 'i' {
        13
    } else {
        -1
    }
}

/// What the letters among the first `n` canonical positions are.
proof fn lemma_letters_upto(flags: Seq<bool>, n: int)
    requires
        0 <= n <= PERMISSION_COUNT,
        flags.len() == PERMISSION_COUNT,
    ensures
        letters_upto(flags, n).len() <= n,
        forall|i: int| 0 <= i < PERMISSION_COUNT ==> canonical_rank(#[trigger] canonical_letter(i)) == i,
        forall|k: int|
            0 <= k < letters_upto(flags, n).len() ==> 0 <= #[trigger] canonical_rank(
                letters_upto(flags, n)[k],
            ) < n,
        forall|a: int, b: int|
            0 <= a < b < letters_upto(flags, n).len() ==> #[trigger] canonical_rank(
                letters_upto(flags, n)[a],
            ) < #[trigger] canonical_rank(letters_upto(flags, n)[b]),
        forall|i: int|
            0 <= i < PERMISSION_COUNT ==> (letters_upto(flags, n).contains(
                #[trigger] canonical_letter(i),
            ) <==> (i < n && flags[i])),
    decreases n,
{
    if n > 0 {
        lemma_letters_upto(flags, n - 1);
        let prev = letters_upto(flags, n - 1);
        let cur = letters_upto(flags, n);
        assert forall|i: int| 0 <= i < PERMISSION_COUNT implies (cur.contains(
            #[trigger] canonical_letter(i),
        ) <==> (i < n && flags[i])) by {
            if flags[n - 1] {
                assert(cur == prev.push(canonical_letter(n - 1)));
                if cur.contains(canonical_letter(i)) {
                    let k = choose|k: int| 0 <= k < cur.len() && cur[k] == canonical_letter(i);
                    if k < prev.len() {
                        assert(prev[k] == canonical_letter(i));
                        assert(prev.contains(canonical_letter(i)));
                    }
                }
                if i < n && flags[i] {
                    if i == n - 1 {
                        assert(cur[cur.len() - 1] == canonical_letter(i));
                    } else {
                        let k = choose|k: int| 0 <= k < prev.len() && prev[k] == canonical_letter(i);
                        assert(cur[k] == canonical_letter(i));
                    }
                }
            }
        }
    }
}

/// The permission string lists exactly the granted permissions, each letter at most
/// once, in the canonical order `racwdxytlmeopi`.
pub proof fn lemma_permission_letters_canonical(flags: Seq<bool>)
    requires
        flags.len() == PERMISSION_COUNT,
    ensures
        permission_letters(flags).len() <= PERMISSION_COUNT,
        forall|k: int|
            0 <= k < permission_letters(flags).len() ==> 0 <= #[trigger] canonical_rank(
                permission_letters(flags)[k],
            ) < PERMISSION_COUNT,
        forall|a: int, b: int|
            0 <= a < b < permission_letters(flags).len() ==> #[trigger] canonical_rank(
                permission_letters(flags)[a],
            ) < #[trigger] canonical_rank(permission_letters(flags)[b]),
        forall|i: int|
            0 <= i < PERMISSION_COUNT ==> (permission_letters(flags).contains(
                #[trigger] canonical_letter(i),
            ) <==> flags[i]),
{
    lemma_letters_upto(flags, PERMISSION_COUNT as int);
}

/// Two sets of permissions with the same permission string are the same set: the
/// string written into a SAS determines the permissions it grants.
pub proof fn lemma_permission_letters_injective(f1: Seq<bool>, f2: Seq<bool>)
    requires
        f1.len() == PERMISSION_COUNT,
        f2.len() == PERMISSION_COUNT,
        permission_letters(f1) == permission_letters(f2),
    ensures
        f1 == f2,
{
    lemma_permission_letters_canonical(f1);
    lemma_permission_letters_canonical(f2);
    assert forall|i: int| 0 <= i < PERMISSION_COUNT implies f1[i] == f2[i] by {
        assert(permission_letters(f1).contains(canonical_letter(i)) <==> f1[i]);
        assert(permission_letters(f2).contains(canonical_letter(i)) <==> f2[i]);
    }
    assert(f1 =~= f2);
}

/// Granting permissions one by one gives the same set whatever the order of the
/// grants, and granting a permission twice is the same as granting it once.
pub proof fn lemma_grants_commute(flags: Seq<bool>, i: int, j: int)
    requires
        0 <= i < flags.len(),
        0 <= j < flags.len(),
    ensures
        flags.update(i, true).update(j, true) == flags.update(j, true).update(i, true),
        flags.update(i, true).update(i, true) == flags.update(i, true),
{
    assert(flags.update(i, true).update(j, true) =~= flags.update(j, true).update(i, true));
    assert(flags.update(i, true).update(i, true) =~= flags.update(i, true));
}

/// Every `SasPermissions` value has one flag per canonical position.
pub proof fn lemma_permissions_view_len(p: SasPermissions)
    ensures
        p@.len() == PERMISSION_COUNT,
{
}

/// The permission string depends only on which permissions are granted: granting
/// two permissions (each `with_*` method grants the one at its position) in either
/// order writes the same string, and granting one twice writes the string of
/// granting it once.
pub proof fn lemma_permission_string_ignores_grant_order(p: SasPermissions, i: int, j: int)
    requires
        0 <= i < PERMISSION_COUNT,
        0 <= j < PERMISSION_COUNT,
    ensures
        permission_letters(p@.update(i, true).update(j, true)) == permission_letters(
            p@.update(j, true).update(i, true),
        ),
        permission_letters(p@.update(i, true).update(i, true)) == permission_letters(
            p@.update(i, true),
        ),
{
    lemma_permissions_view_len(p);
    lemma_grants_commute(p@, i, j);
}

/// Represents the permissions for a Shared Access Signature (SAS).
///
/// Its view is one flag per permission, in the canonical order of the permission
/// letters `racwdxytlmeopi`: read, add, create, write, delete, delete version,
/// permanent delete, tags, list, move, execute, ownership, permissions, filter by tags.
#[derive(Debug, Clone, PartialEq, Eq, Structural)]
pub struct SasPermissions {
    read: bool,
    add: bool,
    create: bool,
    write: bool,
    delete: bool,
    delete_version: bool,
    permanent_delete: bool,
    list: bool,
    tags: bool,
    filter_by_tags: bool,
    move_: bool,
    execute: bool,
    ownership: bool,
    permissions: bool,
}

impl View for SasPermissions {
    type V = Seq<bool>;

    closed spec fn view(&self) -> Seq<bool> {
        Seq::new(PERMISSION_COUNT as nat, |i: int| self.flag(i))
    }
}

impl SasPermissions {
    /// The flag at canonical position `i`.
    closed spec fn flag(&self, i: int) -> bool {
        if i == 0 {
            self.read
        } else if i == 1 {
            self.add
        } else if i == 2 {
            self.create
        } else if i == 3 {
            self.write
        } else if i == 4 {
            self.delete
        } else if i == 5 {
            self.delete_version
        } else if i == 6 {
            self.permanent_delete
        } else if i == 7 {
            self.tags
        } else if i == 8 {
            self.list
        } else if i == 9 {
            self.move_
        } else if i == 10 {
            self.execute
        } else if i == 11 {
            self.ownership
        } else if i == 12 {
            self.permissions
        } else {
            self.filter_by_tags
        }
    }
}

/// No permission granted.
pub open spec fn no_permissions() -> Seq<bool> {
    Seq::new(PERMISSION_COUNT as nat, |i: int| false)
}

/// Canonical positions of the permissions.
pub const READ: usize = 0;
pub const ADD: usize = 1;
pub const CREATE: usize = 2;
pub const WRITE: usize = 3;
pub const DELETE: usize = 4;
pub const DELETE_VERSION: usize = 5;
pub const PERMANENT_DELETE: usize = 6;
pub const TAGS: usize = 7;
pub const LIST: usize = 8;
pub const MOVE: usize = 9;
pub const EXECUTE: usize = 10;
pub const OWNERSHIP: usize = 11;
pub const PERMISSIONS: usize = 12;
pub const FILTER_BY_TAGS: usize = 13;

impl SasPermissions {
    /// Creates a new `SasPermissions` with all permissions set to false.
    pub fn new() -> (r: Self)
        ensures
            r@ == no_permissions(),
    {
        let r = Self {
            read: false,
            add: false,
            create: false,
            write: false,
            delete: false,
            delete_version: false,
            permanent_delete: false,
            list: false,
            tags: false,
            filter_by_tags: false,
            move_: false,
            execute: false,
            ownership: false,
            permissions: false,
        };
        assert(r@ =~= no_permissions());
        r
    }

    /// Creates permissions with read access only.
    pub fn read() -> (r: Self)
        ensures
            r@ == no_permissions().update(READ as int, true),
    {
        Self::new().with_read()
    }

    /// Creates permissions with read and write access.
    pub fn read_write() -> (r: Self)
        ensures
            r@ == no_permissions().update(READ as int, true).update(WRITE as int, true),
    {
        Self::new().with_read().with_write()
    }

    /// Creates permissions with read, write, and delete access.
    pub fn read_write_delete() -> (r: Self)
        ensures
            r@ == no_permissions().update(READ as int, true).update(WRITE as int, true).update(
                DELETE as int,
                true,
            ),
    {
        Self::new().with_read().with_write().with_delete()
    }

    /// Adds read permission.
    pub fn with_read(self) -> (r: Self)
        ensures
            r@ == self@.update(READ as int, true),
    {
        let mut s = self;
        s.read = true;
        assert(s@ =~= self@.update(READ as int, true));
        s
    }

    /// Adds add permission.
    pub fn with_add(self) -> (r: Self)
        ensures
            r@ == self@.update(ADD as int, true),
    {
        let mut s = self;
        s.add = true;
        assert(s@ =~= self@.update(ADD as int, true));
        s
    }

    /// Adds create permission.
    pub fn with_create(self) -> (r: Self)
        ensures
            r@ == self@.update(CREATE as int, true),
    {
        let mut s = self;
        s.create = true;
        assert(s@ =~= self@.update(CREATE as int, true));
        s
    }

    /// Adds write permission.
    pub fn with_write(self) -> (r: Self)
        ensures
            r@ == self@.update(WRITE as int, true),
    {
        let mut s = self;
        s.write = true;
        assert(s@ =~= self@.update(WRITE as int, true));
        s
    }

    /// Adds delete permission.
    pub fn with_delete(self) -> (r: Self)
        ensures
            r@ == self@.update(DELETE as int, true),
    {
        let mut s = self;
        s.delete = true;
        assert(s@ =~= self@.update(DELETE as int, true));
        s
    }

    /// Adds delete version permission.
    pub fn with_delete_version(self) -> (r: Self)
        ensures
            r@ == self@.update(DELETE_VERSION as int, true),
    {
        let mut s = self;
        s.delete_version = true;
        assert(s@ =~= self@.update(DELETE_VERSION as int, true));
        s
    }

    /// Adds permanent delete permission.
    pub fn with_permanent_delete(self) -> (r: Self)
        ensures
            r@ == self@.update(PERMANENT_DELETE as int, true),
    {
        let mut s = self;
        s.permanent_delete = true;
        assert(s@ =~= self@.update(PERMANENT_DELETE as int, true));
        s
    }

    /// Adds list permission.
    pub fn with_list(self) -> (r: Self)
        ensures
            r@ == self@.update(LIST as int, true),
    {
        let mut s = self;
        s.list = true;
        assert(s@ =~= self@.update(LIST as int, true));
        s
    }

    /// Adds tags permission.
    pub fn with_tags(self) -> (r: Self)
        ensures
            r@ == self@.update(TAGS as int, true),
    {
        let mut s = self;
        s.tags = true;
        assert(s@ =~= self@.update(TAGS as int, true));
        s
    }

    /// Adds filter by tags permission.
    pub fn with_filter_by_tags(self) -> (r: Self)
        ensures
            r@ == self@.update(FILTER_BY_TAGS as int, true),
    {
        let mut s = self;
        s.filter_by_tags = true;
        assert(s@ =~= self@.update(FILTER_BY_TAGS as int, true));
        s
    }

    /// Adds move permission.
    pub fn with_move(self) -> (r: Self)
        ensures
            r@ == self@.update(MOVE as int, true),
    {
        let mut s = self;
        s.move_ = true;
        assert(s@ =~= self@.update(MOVE as int, true));
        s
    }

    /// Adds execute permission.
    pub fn with_execute(self) -> (r: Self)
        ensures
            r@ == self@.update(EXECUTE as int, true),
    {
        let mut s = self;
        s.execute = true;
        assert(s@ =~= self@.update(EXECUTE as int, true));
        s
    }

    /// Adds ownership permission.
    pub fn with_ownership(self) -> (r: Self)
        ensures
            r@ == self@.update(OWNERSHIP as int, true),
    {
        let mut s = self;
        s.ownership = true;
        assert(s@ =~= self@.update(OWNERSHIP as int, true));
        s
    }

    /// Adds permissions permission.
    pub fn with_permissions(self) -> (r: Self)
        ensures
            r@ == self@.update(PERMISSIONS as int, true),
    {
        let mut s = self;
        s.permissions = true;
        assert(s@ =~= self@.update(PERMISSIONS as int, true));
        s
    }

    /// The flag at canonical position `i`.
    fn flag_at(&self, i: usize) -> (r: bool)
        requires
            i < PERMISSION_COUNT,
        ensures
            r == self@[i as int],
    {
        if i == 0 {
            self.read
        } else if i == 1 {
            self.add
        } else if i == 2 {
            self.create
        } else if i == 3 {
            self.write
        } else if i == 4 {
            self.delete
        } else if i == 5 {
            self.delete_version
        } else if i == 6 {
            self.permanent_delete
        } else if i == 7 {
            self.tags
        } else if i == 8 {
            self.list
        } else if i == 9 {
            self.move_
        } else if i == 10 {
            self.execute
        } else if i == 11 {
            self.ownership
        } else if i == 12 {
            self.permissions
        } else {
            self.filter_by_tags
        }
    }

    /// Converts the permissions to the Azure Storage SAS permissions string format.
    ///
    /// The permissions are always returned in the canonical order: racwdxytlmeopi
    pub fn to_string(&self) -> (r: String)
        ensures
            r@ == permission_letters(self@),
    {
        let mut result = String::new();
        let mut i: usize = 0;
        while i < PERMISSION_COUNT
            invariant
                i <= PERMISSION_COUNT,
                result@ == letters_upto(self@, i as int),
            decreases PERMISSION_COUNT - i,
        {
            push_letter(&mut result, self.flag_at(i), letter_at(i));
            i = i + 1;
        }
        result
    }
}

/// The letter at canonical position `i`.
fn letter_at(i: usize) -> (c: char)
    ensures
        c == canonical_letter(i as int),
{
    if i == 0 {
        'r'
    } else if i == 1 {
        'a'
    } else if i == 2 {
        'c'
    } else if i == 3 {
        'w'
    } else if i == 4 {
        'd'
    } else if i == 5 {
        'x'
    } else if i == 6 {
        'y'
    } else if i == 7 {
        't'
    } else if i == 8 {
        'l'
    } else if i == 9 {
        'm'
    } else if i == 10 {
        'e'
    } else if i == 11 {
        'o'
    } else if i == 12 {
        'p'
    } else {
        'i'
    }
}

/// Appends `c` when `granted` holds.
fn push_letter(s: &mut String, granted: bool, c: char)
    ensures
        final(s)@ == (if granted {
            old(s)@.push(c)
        } else {
            old(s)@
        }),
{
    if granted {
        push_char(s, c);
    }
}

impl Default for SasPermissions {
    fn default() -> (r: Self)
        ensures
            r@ == no_permissions(),
    {
        Self::new()
    }
}

} // verus!
