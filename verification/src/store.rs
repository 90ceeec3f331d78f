//! The relational store, modelled in memory: one row type per table and one
//! verified method per business operation. Each method's contract states
//! exactly which rows it reads or rewrites, in terms of the store's
//! spec-level view.

use vstd::prelude::*;
use crate::codec::b64_chars;
use crate::codec::b64_decode;
use crate::codec::spec_coerce_count;
use crate::codec::decode_image;
use crate::codec::encode_image;
use crate::codec::parse_count;
use crate::credentials::verifies;
use crate::credentials::hash_password;
use crate::credentials::check_code;
use crate::credentials::compare_email;
use crate::records::ActiveReserve;
use crate::records::AllReserves;
use crate::records::DataError;
use crate::records::EditUserDetails;
use crate::records::Food;
use crate::records::FoodDetail;
use crate::records::FoodDetail2;
use crate::records::FoodV;
use crate::records::GetUserDetails;
use crate::records::LoginDetail;
use crate::records::NewUserDetails;
use crate::records::PictureDetails;
use crate::records::ReservationDetails;
use crate::records::ReserveDetails;
use crate::records::UserCodeDetails;
use crate::records::UserDetails;
use crate::records::view_opt_string;
use crate::records::ActiveReserveV;
use crate::records::AllReservesV;
use crate::records::GetUserDetailsV;
use crate::records::ReservationDetailsV;
use crate::records::UserDetailsV;
use vstd::utf8::encode_utf8;

verus! {

broadcast use crate::records::lemma_deep_view_len, crate::records::lemma_deep_view_index;

// ---------------------------------------------------------------------------
// Rows and their views
// ---------------------------------------------------------------------------

/// A row of the users table.
pub struct UserRow {
    pub id: i32,
    pub email: String,
    pub password_hash: String,
    pub first_name: Option<String>,
    pub last_name: Option<String>,
    pub num_of_food_added: i32,
    pub num_of_food_taken: i32,
    pub profile_image: Option<Vec<u8>>,
    pub email_verified: bool,
    pub code_pass: String,
    pub has_reserve: bool,
    pub is_active: bool,
}

/// Spec-level image of a users row.
#[verifier::ext_equal]
pub struct UserV {
    pub id: i32,
    pub email: Seq<char>,
    pub password_hash: Seq<char>,
    pub first_name: Option<Seq<char>>,
    pub last_name: Option<Seq<char>>,
    pub num_of_food_added: i32,
    pub num_of_food_taken: i32,
    pub profile_image: Option<Seq<u8>>,
    pub email_verified: bool,
    pub code_pass: Seq<char>,
    pub has_reserve: bool,
    pub is_active: bool,
}

impl View for UserRow {
    type V = UserV;

    open spec fn view(&self) -> UserV {
        UserV {
            id: self.id,
            email: self.email@,
            password_hash: self.password_hash@,
            first_name: view_opt_string(self.first_name),
            last_name: view_opt_string(self.last_name),
            num_of_food_added: self.num_of_food_added,
            num_of_food_taken: self.num_of_food_taken,
            profile_image: match self.profile_image {
                Some(b) => Some(b@),
                None => None,
            },
            email_verified: self.email_verified,
            code_pass: self.code_pass@,
            has_reserve: self.has_reserve,
            is_active: self.is_active,
        }
    }
}

impl DeepView for UserRow {
    type V = UserV;

    open spec fn deep_view(&self) -> UserV {
        self.view()
    }
}

/// A row of the foods table.
pub struct FoodRow {
    pub id: i32,
    pub title: String,
    pub description: String,
    pub is_free: bool,
    pub pickup_time: String,
    pub pickup_address: String,
    pub user_id: i32,
    pub image: Vec<u8>,
    pub status: String,
}

/// Spec-level image of a foods row.
#[verifier::ext_equal]
pub struct FoodRowV {
    pub id: i32,
    pub title: Seq<char>,
    pub description: Seq<char>,
    pub is_free: bool,
    pub pickup_time: Seq<char>,
    pub pickup_address: Seq<char>,
    pub user_id: i32,
    pub image: Seq<u8>,
    pub status: Seq<char>,
}

impl View for FoodRow {
    type V = FoodRowV;

    open spec fn view(&self) -> FoodRowV {
        FoodRowV {
            id: self.id,
            title: self.title@,
            description: self.description@,
            is_free: self.is_free,
            pickup_time: self.pickup_time@,
            pickup_address: self.pickup_address@,
            user_id: self.user_id,
            image: self.image@,
            status: self.status@,
        }
    }
}

impl DeepView for FoodRow {
    type V = FoodRowV;

    open spec fn deep_view(&self) -> FoodRowV {
        self.view()
    }
}

/// A row of the reservations table.
pub struct ReservationRow {
    pub id: i32,
    pub user_id: i32,
    pub food_id: i32,
    pub reserved_at: String,
    pub status: String,
}

/// Spec-level image of a reservations row.
#[verifier::ext_equal]
pub struct ReservationV {
    pub id: i32,
    pub user_id: i32,
    pub food_id: i32,
    pub reserved_at: Seq<char>,
    pub status: Seq<char>,
}

impl View for ReservationRow {
    type V = ReservationV;

    open spec fn view(&self) -> ReservationV {
        ReservationV {
            id: self.id,
            user_id: self.user_id,
            food_id: self.food_id,
            reserved_at: self.reserved_at@,
            status: self.status@,
        }
    }
}

impl DeepView for ReservationRow {
    type V = ReservationV;

    open spec fn deep_view(&self) -> ReservationV {
        self.view()
    }
}

// ---------------------------------------------------------------------------
// The store
// ---------------------------------------------------------------------------

/// The in-memory relational store: three tables, the next fresh id of each,
/// the connection's last-insert id, and the clock value stamped onto new
/// reservations.
pub struct Store {
    pub users: Vec<UserRow>,
    pub foods: Vec<FoodRow>,
    pub reservations: Vec<ReservationRow>,
    pub next_user_id: i32,
    pub next_food_id: i32,
    pub next_reservation_id: i32,
    pub last_insert_id: u64,
    pub now: String,
}

/// Spec-level image of the whole store.
#[verifier::ext_equal]
pub struct StoreV {
    pub users: Seq<UserV>,
    pub foods: Seq<FoodRowV>,
    pub reservations: Seq<ReservationV>,
    pub next_user_id: i32,
    pub next_food_id: i32,
    pub next_reservation_id: i32,
    pub last_insert_id: u64,
    pub now: Seq<char>,
}

impl View for Store {
    type V = StoreV;

    open spec fn view(&self) -> StoreV {
        StoreV {
            users: self.users.deep_view(),
            foods: self.foods.deep_view(),
            reservations: self.reservations.deep_view(),
            next_user_id: self.next_user_id,
            next_food_id: self.next_food_id,
            next_reservation_id: self.next_reservation_id,
            last_insert_id: self.last_insert_id,
            now: self.now@,
        }
    }
}

impl StoreV {
    /// Well-formedness: every id is positive, below its table's next fresh
    /// id, and unique within its table.
    pub open spec fn wf(self) -> bool {
        &&& 1 <= self.next_user_id
        &&& 1 <= self.next_food_id
        &&& 1 <= self.next_reservation_id
        &&& forall|i: int|
            0 <= i < self.users.len() ==> 1 <= (#[trigger] self.users[i]).id
                < self.next_user_id
        &&& forall|i: int, j: int|
            0 <= i < j < self.users.len() ==> (#[trigger] self.users[i]).id != (
            #[trigger] self.users[j]).id
        &&& forall|i: int|
            0 <= i < self.foods.len() ==> 1 <= (#[trigger] self.foods[i]).id < self.next_food_id
        &&& forall|i: int, j: int|
            0 <= i < j < self.foods.len() ==> (#[trigger] self.foods[i]).id != (
            #[trigger] self.foods[j]).id
        &&& forall|i: int|
            0 <= i < self.reservations.len() ==> 1 <= (#[trigger] self.reservations[i]).id
                < self.next_reservation_id
        &&& forall|i: int, j: int|
            0 <= i < j < self.reservations.len() ==> (#[trigger] self.reservations[i]).id != (
            #[trigger] self.reservations[j]).id
    }
}

// ---------------------------------------------------------------------------
// First-match lookup, the model of `fetch_one` / `fetch_optional`
// ---------------------------------------------------------------------------

/// The first element satisfying `p`, in table order.
pub open spec fn find_first<A>(s: Seq<A>, p: spec_fn(A) -> bool) -> Option<A>
    decreases s.len(),
{
    if s.len() == 0 {
        None
    } else if p(s[0]) {
        Some(s[0])
    } else {
        find_first(s.drop_first(), p)
    }
}

/// Skipping elements that do not satisfy `p` leaves the first match alone.
pub proof fn lemma_find_first_skip<A>(s: Seq<A>, p: spec_fn(A) -> bool, i: int)
    requires
        0 <= i <= s.len(),
        forall|k: int| 0 <= k < i ==> !p(#[trigger] s[k]),
    ensures
        find_first(s, p) == find_first(s.skip(i), p),
    decreases i,
{
    if i > 0 {
        assert(!p(s[0]));
        assert(s.drop_first() =~= s.skip(1));
        assert(forall|k: int| 0 <= k < i - 1 ==> !p(#[trigger] s.skip(1)[k]));
        lemma_find_first_skip(s.skip(1), p, i - 1);
        assert(s.skip(1).skip(i - 1) =~= s.skip(i));
    } else {
        assert(s.skip(0) =~= s);
    }
}

/// If nothing before `j` matches and `s[j]` does, the first match is `s[j]`.
pub proof fn lemma_find_first_found<A>(s: Seq<A>, p: spec_fn(A) -> bool, j: int)
    requires
        0 <= j < s.len(),
        forall|k: int| 0 <= k < j ==> !p(#[trigger] s[k]),
        p(s[j]),
    ensures
        find_first(s, p) == Some(s[j]),
{
    lemma_find_first_skip(s, p, j);
    assert(s.skip(j)[0] == s[j]);
}

/// If nothing matches at all, there is no first match.
pub proof fn lemma_find_first_none<A>(s: Seq<A>, p: spec_fn(A) -> bool)
    requires
        forall|k: int| 0 <= k < s.len() ==> !p(#[trigger] s[k]),
    ensures
        find_first(s, p) is None,
{
    lemma_find_first_skip(s, p, s.len() as int);
    assert(s.skip(s.len() as int) =~= Seq::<A>::empty());
}

/// The first users row with the given id, active or not.
pub open spec fn find_user_by_id(users: Seq<UserV>, id: i32) -> Option<UserV> {
    find_first(users, |u: UserV| u.id == id)
}

/// The first active users row with the given email.
pub open spec fn find_active_user_by_email(users: Seq<UserV>, email: Seq<char>) -> Option<UserV> {
    find_first(users, |u: UserV| u.is_active && u.email == email)
}

/// The first foods row with the given id.
pub open spec fn find_food_by_id(foods: Seq<FoodRowV>, id: i32) -> Option<FoodRowV> {
    find_first(foods, |f: FoodRowV| f.id == id)
}

/// The first reservations row with the given id.
pub open spec fn find_reservation_by_id(rs: Seq<ReservationV>, id: u64) -> Option<ReservationV> {
    find_first(rs, |r: ReservationV| r.id as u64 == id)
}

/// Whether some active users row carries this email.
pub open spec fn email_taken(s: StoreV, email: Seq<char>) -> bool {
    exists|i: int|
        0 <= i < s.users.len() && (#[trigger] s.users[i]).is_active && s.users[i].email == email
}

/// Whether some users row with this id has its reservation flag set.
pub open spec fn user_has_reserve_flag(s: StoreV, id: i32) -> bool {
    exists|i: int|
        0 <= i < s.users.len() && (#[trigger] s.users[i]).id == id && s.users[i].has_reserve
}

// ---------------------------------------------------------------------------
// Row transformations, the model of the UPDATE statements
// ---------------------------------------------------------------------------

/// `UPDATE users SET email_verified = 1 WHERE email = ? AND is_active = 1`.
pub open spec fn upd_set_verified(u: UserV, email: Seq<char>) -> UserV {
    if u.is_active && u.email == email {
        UserV { email_verified: true, ..u }
    } else {
        u
    }
}


/// `UPDATE users SET num_of_food_added = num_of_food_added + 1 WHERE
/// id = ? AND is_active = 1`; the counter saturates at the column's
/// maximum.
pub open spec fn upd_inc_food_count(u: UserV, user_id: i32) -> UserV {
    if u.id == user_id && u.is_active && u.num_of_food_added < i32::MAX {
        UserV { num_of_food_added: (u.num_of_food_added + 1) as i32, ..u }
    } else {
        u
    }
}

/// `UPDATE users SET code_pass = '' WHERE email = ?`.
pub open spec fn upd_clear_code(u: UserV, email: Seq<char>) -> UserV {
    if u.email == email {
        UserV { code_pass: Seq::empty(), ..u }
    } else {
        u
    }
}

/// `UPDATE users SET code_pass = ? WHERE id = ?`.
pub open spec fn upd_set_code(u: UserV, user_id: i32, code: Seq<char>) -> UserV {
    if u.id == user_id {
        UserV { code_pass: code, ..u }
    } else {
        u
    }
}

/// `UPDATE users SET first_name = ?, last_name = ?, email = ? WHERE
/// id = ? AND is_active = 1`.
pub open spec fn upd_edit_profile(
    u: UserV,
    user_id: i32,
    first: Seq<char>,
    last: Seq<char>,
    email: Seq<char>,
) -> UserV {
    if u.id == user_id && u.is_active {
        UserV { first_name: Some(first), last_name: Some(last), email: email, ..u }
    } else {
        u
    }
}

/// `UPDATE users SET email_verified = 0 WHERE email = ?`.
pub open spec fn upd_unverify(u: UserV, email: Seq<char>) -> UserV {
    if u.email == email {
        UserV { email_verified: false, ..u }
    } else {
        u
    }
}

/// `UPDATE users SET is_active = 0 WHERE id = ? AND email = ?`.
pub open spec fn upd_deactivate(u: UserV, user_id: i32, email: Seq<char>) -> UserV {
    if u.id == user_id && u.email == email {
        UserV { is_active: false, ..u }
    } else {
        u
    }
}

/// `UPDATE users SET has_reserve = 1 WHERE id = ?`.
pub open spec fn upd_mark_reserve(u: UserV, user_id: i32) -> UserV {
    if u.id == user_id {
        UserV { has_reserve: true, ..u }
    } else {
        u
    }
}

/// `UPDATE users SET has_reserve = 0 WHERE id = ?`.
pub open spec fn upd_clear_reserve(u: UserV, user_id: i32) -> UserV {
    if u.id == user_id {
        UserV { has_reserve: false, ..u }
    } else {
        u
    }
}


/// `UPDATE users SET profile_image = ? WHERE id = ? AND is_active = 1`.
pub open spec fn upd_set_picture(u: UserV, user_id: i32, img: Option<Seq<u8>>) -> UserV {
    if u.id == user_id && u.is_active {
        UserV { profile_image: img, ..u }
    } else {
        u
    }
}

/// `UPDATE foods SET title = ?, description = ?, is_free = ?,
/// pickup_time = ?, pickup_address = ?, image = ? WHERE id = ?`.
pub open spec fn upd_edit_food(f: FoodRowV, d: FoodDetail2, image: Seq<u8>) -> FoodRowV {
    if f.id == d.food_id {
        FoodRowV {
            title: d.title@,
            description: d.description@,
            is_free: d.is_free,
            pickup_time: d.pickup_time@,
            pickup_address: d.pickup_address@,
            image: image,
            ..f
        }
    } else {
        f
    }
}

/// `UPDATE reservations SET status = 'cancelled' WHERE user_id = ? OR
/// food_id = ?`.
pub open spec fn upd_cancel_reservation(r: ReservationV, user_id: i32, food_id: i32) -> ReservationV {
    if r.user_id == user_id || r.food_id == food_id {
        ReservationV { status: "cancelled"@, ..r }
    } else {
        r
    }
}

/// Copies an optional byte buffer.
fn clone_opt_bytes(o: &Option<Vec<u8>>) -> (r: Option<Vec<u8>>)
    ensures
        (match (o, r) {
            (None, None) => true,
            (Some(a), Some(b)) => a@ == b@,
            _ => false,
        }),
{
    match o {
        None => None,
        Some(b) => Some(vstd::slice::slice_to_vec(b.as_slice())),
    }
}

/// Copies a byte buffer.
fn clone_bytes(b: &Vec<u8>) -> (r: Vec<u8>)
    ensures
        r@ == b@,
{
    vstd::slice::slice_to_vec(b.as_slice())
}


/// Filtering after appending one element: the element stays exactly when it
/// satisfies the predicate.
pub proof fn lemma_filter_push<A>(s: Seq<A>, x: A, p: spec_fn(A) -> bool)
    ensures
        (s.push(x)).filter(p) == (if p(x) {
            s.filter(p).push(x)
        } else {
            s.filter(p)
        }),
{
    reveal(Seq::filter);
    assert((s.push(x)).drop_last() =~= s);
    assert((s.push(x)).last() == x);
}

/// Filtering commutes with taking element-wise deep views, when the two
/// predicates agree across the view.
pub proof fn lemma_filter_deep<T: DeepView>(s: Seq<T>, p: spec_fn(T) -> bool, q: spec_fn(T::V) -> bool)
    requires
        forall|x: T| #[trigger] p(x) == q(x.deep_view()),
    ensures
        s.filter(p).map_values(|x: T| x.deep_view()) == s.map_values(|x: T| x.deep_view()).filter(
            q,
        ),
    decreases s.len(),
{
    reveal(Seq::filter);
    let m = |x: T| x.deep_view();
    if s.len() == 0 {
        assert(s.filter(p) =~= s);
        assert(s.filter(p).map_values(m) =~= Seq::<T::V>::empty());
        assert(s.map_values(m) =~= Seq::<T::V>::empty());
        assert(s.map_values(m).filter(q) =~= Seq::<T::V>::empty());
    } else {
        let d = s.drop_last();
        let x = s.last();
        lemma_filter_deep(d, p, q);
        assert(s =~= d.push(x));
        lemma_filter_push(d, x, p);
        assert(s.map_values(m) =~= d.map_values(m).push(m(x)));
        lemma_filter_push(d.map_values(m), m(x), q);
        if p(x) {
            assert(s.filter(p) == d.filter(p).push(x));
            assert(s.filter(p).map_values(m) =~= d.filter(p).map_values(m).push(m(x)));
            assert(s.map_values(m).filter(q) == d.map_values(m).filter(q).push(m(x)));
        } else {
            assert(s.filter(p) == d.filter(p));
            assert(s.map_values(m).filter(q) == d.map_values(m).filter(q));
        }
    }
}

/// What `create_new_user` appends: the given identity, a hash that
/// verifies against the submitted password, coerced counters, and every
/// other column at its default.
pub open spec fn new_user_row_ok(u: UserV, d: NewUserDetails, id: i32) -> bool {
    &&& u.id == id
    &&& u.email == d.email@
    &&& verifies(d.password_hash@, u.password_hash)
    &&& u.first_name == view_opt_string(d.first_name)
    &&& u.last_name == view_opt_string(d.last_name)
    &&& u.num_of_food_added as int == spec_coerce_count(d.num_of_food_added)
    &&& u.num_of_food_taken as int == spec_coerce_count(d.num_of_food_taken)
    &&& u.profile_image is None
    &&& !u.email_verified
    &&& u.code_pass == Seq::<char>::empty()
    &&& !u.has_reserve
    &&& u.is_active
}

/// What `insert_food` appends: the payload's columns with the image
/// decoded, status active.
pub open spec fn new_food_row_ok(f: FoodRowV, d: FoodDetail, id: i32) -> bool {
    &&& f.id == id
    &&& f.title == d.title@
    &&& f.description == d.description@
    &&& f.is_free == d.is_free
    &&& f.pickup_time == d.pickup_time@
    &&& f.pickup_address == d.pickup_address@
    &&& f.user_id == d.user_id
    &&& Some(f.image) == b64_decode(encode_utf8(d.image@))
    &&& f.status == "active"@
}


/// Filtering keeps every element of the sequence, so bounds and pairwise
/// distinctness of an id field survive it.
pub proof fn lemma_filter_distinct_ids<A>(
    s: Seq<A>,
    p: spec_fn(A) -> bool,
    idf: spec_fn(A) -> i32,
    lo: i32,
    hi: i32,
)
    requires
        forall|i: int| 0 <= i < s.len() ==> lo <= #[trigger] idf(s[i]) < hi,
        forall|i: int, j: int| 0 <= i < j < s.len() ==> idf(s[i]) != idf(s[j]),
    ensures
        forall|i: int| 0 <= i < s.filter(p).len() ==> lo <= #[trigger] idf(s.filter(p)[i]) < hi,
        forall|i: int, j: int|
            0 <= i < j < s.filter(p).len() ==> idf(s.filter(p)[i]) != idf(s.filter(p)[j]),
        forall|i: int|
            0 <= i < s.filter(p).len() ==> exists|k: int|
                0 <= k < s.len() && #[trigger] s.filter(p)[i] == s[k],
    decreases s.len(),
{
    reveal(Seq::filter);
    if s.len() > 0 {
        let d = s.drop_last();
        let x = s.last();
        let fd = d.filter(p);
        let fs = s.filter(p);
        lemma_filter_distinct_ids(d, p, idf, lo, hi);
        assert(forall|i: int| 0 <= i < d.len() ==> d[i] == s[i]);
        assert forall|i: int| 0 <= i < fs.len() implies exists|k: int|
            0 <= k < s.len() && #[trigger] fs[i] == s[k] by {
            if i < fd.len() {
                assert(fs[i] == fd[i]);
                let k = choose|k: int| 0 <= k < d.len() && fd[i] == d[k];
                assert(0 <= k < s.len() && fs[i] == s[k]);
            } else {
                assert(p(x) && fs[i] == x);
                assert(fs[i] == s[s.len() - 1]);
            }
        }
        assert forall|i: int| 0 <= i < fs.len() implies lo <= #[trigger] idf(fs[i]) < hi by {
            if i < fd.len() {
                assert(fs[i] == fd[i]);
            } else {
                assert(fs[i] == x && x == s[s.len() - 1]);
            }
        }
        assert forall|i: int, j: int| 0 <= i < j < fs.len() implies idf(fs[i]) != idf(
            fs[j],
        ) by {
            if j < fd.len() {
                assert(fs[i] == fd[i] && fs[j] == fd[j]);
            } else {
                assert(p(x) && fs[j] == x && fs[i] == fd[i]);
                let k = choose|k: int| 0 <= k < d.len() && fd[i] == d[k];
                assert(fd[i] == s[k] && k < s.len() - 1);
                assert(idf(s[k]) != idf(s[s.len() - 1]));
            }
        }
    }
}


/// How a foods row leaves on the wire: every column wrapped, the image
/// re-encoded to base64, the boolean flag as a tiny integer.
pub open spec fn food_wire_of(f: FoodRowV) -> FoodV {
    FoodV {
        id: Some(f.id),
        title: Some(f.title),
        description: Some(f.description),
        is_free: Some(if f.is_free { 1i8 } else { 0i8 }),
        pickup_time: Some(f.pickup_time),
        pickup_address: Some(f.pickup_address),
        user_id: Some(f.user_id),
        image: Some(b64_chars(f.image)),
        status: Some(f.status),
    }
}

/// How a users row leaves on the wire for login, hash included.
pub open spec fn user_details_wire_of(u: UserV) -> UserDetailsV {
    UserDetailsV {
        id: Some(u.id),
        email: Some(u.email),
        first_name: u.first_name,
        last_name: u.last_name,
        num_of_food_added: Some(u.num_of_food_added),
        num_of_food_taken: Some(u.num_of_food_taken),
        profile_image: match u.profile_image {
            Some(b) => Some(b64_chars(b)),
            None => None,
        },
        email_verified: Some(if u.email_verified { 1i8 } else { 0i8 }),
        password_hash: u.password_hash,
    }
}

/// How a users row leaves on the wire for the profile view.
pub open spec fn profile_wire_of(u: UserV) -> GetUserDetailsV {
    GetUserDetailsV {
        id: Some(u.id),
        email: Some(u.email),
        first_name: u.first_name,
        last_name: u.last_name,
        num_of_food_added: Some(u.num_of_food_added),
        num_of_food_taken: Some(u.num_of_food_taken),
        profile_image: match u.profile_image {
            Some(b) => Some(b64_chars(b)),
            None => None,
        },
        email_verified: Some(if u.email_verified { 1i8 } else { 0i8 }),
    }
}

/// How a reservations row leaves on the wire.
pub open spec fn reservation_wire_of(r: ReservationV) -> ReservationDetailsV {
    ReservationDetailsV {
        id: r.id,
        user_id: r.user_id,
        food_id: r.food_id,
        reserved_at: Some(r.reserved_at),
        status: Some(r.status),
    }
}

/// Whether a reservations row appears in the reservation listing of a
/// user: it is theirs and both joined rows exist.
pub open spec fn joinable(s: StoreV, rv: ReservationV, uid: i32) -> bool {
    &&& rv.user_id == uid
    &&& find_user_by_id(s.users, rv.user_id) is Some
    &&& find_food_by_id(s.foods, rv.food_id) is Some
}

/// One row of the reservation listing: the reservation joined with its
/// user and food rows.
pub open spec fn join_row(s: StoreV, rv: ReservationV) -> AllReservesV {
    let u = find_user_by_id(s.users, rv.user_id).unwrap();
    let f = find_food_by_id(s.foods, rv.food_id).unwrap();
    AllReservesV {
        food_id: rv.food_id,
        title: Some(f.title),
        description: Some(f.description),
        first_name: u.first_name,
        image: Some(b64_chars(f.image)),
    }
}

/// The single active-reservation row, joined.
pub open spec fn active_reserve_wire_of(rv: ReservationV, u: UserV, f: FoodRowV) -> ActiveReserveV {
    ActiveReserveV {
        food_id: rv.food_id,
        title: Some(f.title),
        description: Some(f.description),
        first_name: u.first_name,
        image: Some(b64_chars(f.image)),
        pickup_time: Some(f.pickup_time),
        pickup_address: Some(f.pickup_address),
    }
}

/// Copies an optional string.
fn clone_opt_string(o: &Option<String>) -> (r: Option<String>)
    ensures
        r == *o,
{
    match o {
        None => None,
        Some(s) => Some(s.clone()),
    }
}

/// Encodes an optional image column for the wire.
fn encode_opt_image(o: &Option<Vec<u8>>) -> (r: Option<String>)
    ensures
        (match o {
            None => r is None,
            Some(b) => r matches Some(s) && s@ == b64_chars(b@),
        }),
{
    match o {
        None => None,
        Some(b) => Some(encode_image(b)),
    }
}


/// Mapping after appending one element appends the mapped element.
pub proof fn lemma_map_values_push<A, B>(s: Seq<A>, x: A, f: spec_fn(A) -> B)
    ensures
        (s.push(x)).map_values(f) == s.map_values(f).push(f(x)),
{
    assert((s.push(x)).map_values(f) =~= s.map_values(f).push(f(x)));
}

impl Store {
    /// An empty store.
    pub fn new() -> (r: Store)
        ensures
            r@.users == Seq::<UserV>::empty(),
            r@.foods == Seq::<FoodRowV>::empty(),
            r@.reservations == Seq::<ReservationV>::empty(),
            r@.next_user_id == 1,
            r@.next_food_id == 1,
            r@.next_reservation_id == 1,
            r@.last_insert_id == 0,
            r@.now == Seq::<char>::empty(),
            r.wf(),
    {
        let s = Store {
            users: Vec::new(),
            foods: Vec::new(),
            reservations: Vec::new(),
            next_user_id: 1,
            next_food_id: 1,
            next_reservation_id: 1,
            last_insert_id: 0,
            now: String::new(),
        };
        proof {
            assert(s@.users =~= Seq::<UserV>::empty());
            assert(s@.foods =~= Seq::<FoodRowV>::empty());
            assert(s@.reservations =~= Seq::<ReservationV>::empty());
        }
        s
    }

    /// Well-formedness of the store's view.
    pub open spec fn wf(&self) -> bool {
        self@.wf()
    }

    /// Whether an active user already carries this email: the registration
    /// pre-check.
    pub fn check_if_email_exists(&self, email: String) -> (r: bool)
        ensures
            r == email_taken(self@, email@),
    {
        let n = self.users.len();
        let mut i: usize = 0;
        while i < n
            invariant
                i <= n,
                n == self.users@.len(),
                forall|k: int|
                    0 <= k < i ==> !((#[trigger] self@.users[k]).is_active && self@.users[k].email
                        == email@),
            decreases n - i,
        {
            if self.users[i].is_active && self.users[i].email.eq(&email) {
                proof {
                    assert(self@.users[i as int].is_active && self@.users[i as int].email
                        == email@);
                }
                return true;
            }
            i = i + 1;
        }
        false
    }

    /// The email of the user row with this id; `NotFound` if no row
    /// matches.
    pub fn get_user_email(&self, id: &i32) -> (r: Result<String, DataError>)
        ensures
            match find_user_by_id(self@.users, *id) {
                Some(u) => r matches Ok(s) && s@ == u.email,
                None => r matches Err(e) && e is NotFound,
            },
    {
        let n = self.users.len();
        let mut i: usize = 0;
        while i < n
            invariant
                i <= n,
                n == self.users@.len(),
                forall|k: int| 0 <= k < i ==> (#[trigger] self@.users[k]).id != *id,
            decreases n - i,
        {
            if self.users[i].id == *id {
                proof {
                    lemma_find_first_found(self@.users, |u: UserV| u.id == *id, i as int);
                }
                return Ok(self.users[i].email.clone());
            }
            i = i + 1;
        }
        proof {
            lemma_find_first_none(self@.users, |u: UserV| u.id == *id);
        }
        Err(DataError::NotFound)
    }

    /// `UPDATE users SET email_verified = 1 WHERE email = ? AND
    /// is_active = 1`: every matching row, other rows and tables untouched.
    pub fn update_verified(&mut self, user_email: &String)
        requires
            old(self).wf(),
        ensures
            final(self).wf(),
            final(self)@ == (StoreV {
                users: old(self)@.users.map_values(
                    |u: UserV| upd_set_verified(u, user_email@),
                ),
                ..old(self)@
            }),
    {
        let n = self.users.len();
        let mut i: usize = 0;
        while i < n
            invariant
                i <= n,
                n == self.users@.len(),
                n == old(self).users@.len(),
                forall|j: int|
                    0 <= j < i ==> (#[trigger] self.users@[j])@ == upd_set_verified(
                        old(self).users@[j]@,
                        user_email@,
                    ),
                forall|j: int| i <= j < n ==> (#[trigger] self.users@[j]) == old(self).users@[j],
                self.foods == old(self).foods,
                self.reservations == old(self).reservations,
                self.next_user_id == old(self).next_user_id,
                self.next_food_id == old(self).next_food_id,
                self.next_reservation_id == old(self).next_reservation_id,
                self.last_insert_id == old(self).last_insert_id,
                self.now == old(self).now,
            decreases n - i,
        {
            let ghost prev = self.users@;
            if self.users[i].is_active && self.users[i].email.eq(user_email) {
                let mut row = self.users.remove(i);
                row.email_verified = true;
                let ghost newrow = row;
                self.users.insert(i, row);
                proof {
                    assert(self.users@ =~= prev.update(i as int, newrow));
                    assert(prev[i as int] == old(self).users@[i as int]);
                    assert(newrow@ =~= upd_set_verified(old(self).users@[i as int]@, user_email@));
                }
            }
            i = i + 1;
        }
        proof {
            let f = |u: UserV| upd_set_verified(u, user_email@);
            assert forall|j: int| 0 <= j < n implies (#[trigger] self@.users[j])
                == old(self)@.users.map_values(f)[j] by {
                crate::records::lemma_deep_view_index(self.users, j);
                crate::records::lemma_deep_view_index(old(self).users, j);
            }
            assert(self@.users =~= old(self)@.users.map_values(f));
            assert(self@ =~= (StoreV { users: old(self)@.users.map_values(f), ..old(self)@ }));
        }
    }

    /// `UPDATE users SET num_of_food_added = num_of_food_added + 1 WHERE id = ? AND is_active = 1`: every matching row rewritten, other rows and tables
    /// untouched.
    pub fn increment_user_food_count(&mut self, user_id: i32)
        requires
            old(self).wf(),
        ensures
            final(self).wf(),
            final(self)@ == (StoreV {
                users: old(self)@.users.map_values(
                    |u: UserV| upd_inc_food_count(u, user_id),
                ),
                ..old(self)@
            }),
    {
        let n = self.users.len();
        let mut i: usize = 0;
        while i < n
            invariant
                i <= n,
                n == self.users@.len(),
                n == old(self).users@.len(),
                forall|j: int|
                    0 <= j < i ==> (#[trigger] self.users@[j])@ == upd_inc_food_count(old(self).users@[j]@, user_id),
                forall|j: int| i <= j < n ==> (#[trigger] self.users@[j]) == old(self).users@[j],
                self.foods == old(self).foods,
                self.reservations == old(self).reservations,
                self.next_user_id == old(self).next_user_id,
                self.next_food_id == old(self).next_food_id,
                self.next_reservation_id == old(self).next_reservation_id,
                self.last_insert_id == old(self).last_insert_id,
                self.now == old(self).now,
            decreases n - i,
        {
            let ghost prev = self.users@;
            if self.users[i].id == user_id && self.users[i].is_active {
                let mut row = self.users.remove(i);
                if row.num_of_food_added < 2147483647 {
                    row.num_of_food_added = row.num_of_food_added + 1;
                }
                let ghost newrow = row;
                self.users.insert(i, row);
                proof {
                    assert(self.users@ =~= prev.update(i as int, newrow));
                    assert(prev[i as int] == old(self).users@[i as int]);
                    assert(newrow@ =~= upd_inc_food_count(old(self).users@[i as int]@, user_id));
                }
            }
            i = i + 1;
        }
        proof {
            let f = |u: UserV| upd_inc_food_count(u, user_id);
            assert forall|j: int| 0 <= j < n implies (#[trigger] self@.users[j])
                == old(self)@.users.map_values(f)[j] by {
                crate::records::lemma_deep_view_index(self.users, j);
                crate::records::lemma_deep_view_index(old(self).users, j);
            }
            assert(self@.users =~= old(self)@.users.map_values(f));
            assert(self@ =~= (StoreV { users: old(self)@.users.map_values(f), ..old(self)@ }));
        }
    }

    /// `UPDATE users SET code_pass = '' WHERE email = ?`: every matching row rewritten, other rows and tables
    /// untouched.
    pub fn delete_verification_code(&mut self, user_email: &String)
        requires
            old(self).wf(),
        ensures
            final(self).wf(),
            final(self)@ == (StoreV {
                users: old(self)@.users.map_values(
                    |u: UserV| upd_clear_code(u, user_email@),
                ),
                ..old(self)@
            }),
    {
        let n = self.users.len();
        let mut i: usize = 0;
        while i < n
            invariant
                i <= n,
                n == self.users@.len(),
                n == old(self).users@.len(),
                forall|j: int|
                    0 <= j < i ==> (#[trigger] self.users@[j])@ == upd_clear_code(old(self).users@[j]@, user_email@),
                forall|j: int| i <= j < n ==> (#[trigger] self.users@[j]) == old(self).users@[j],
                self.foods == old(self).foods,
                self.reservations == old(self).reservations,
                self.next_user_id == old(self).next_user_id,
                self.next_food_id == old(self).next_food_id,
                self.next_reservation_id == old(self).next_reservation_id,
                self.last_insert_id == old(self).last_insert_id,
                self.now == old(self).now,
            decreases n - i,
        {
            let ghost prev = self.users@;
            if self.users[i].email.eq(user_email) {
                let mut row = self.users.remove(i);
                row.code_pass = String::new();
                let ghost newrow = row;
                self.users.insert(i, row);
                proof {
                    assert(self.users@ =~= prev.update(i as int, newrow));
                    assert(prev[i as int] == old(self).users@[i as int]);
                    assert(newrow@ =~= upd_clear_code(old(self).users@[i as int]@, user_email@));
                }
            }
            i = i + 1;
        }
        proof {
            let f = |u: UserV| upd_clear_code(u, user_email@);
            assert forall|j: int| 0 <= j < n implies (#[trigger] self@.users[j])
                == old(self)@.users.map_values(f)[j] by {
                crate::records::lemma_deep_view_index(self.users, j);
                crate::records::lemma_deep_view_index(old(self).users, j);
            }
            assert(self@.users =~= old(self)@.users.map_values(f));
            assert(self@ =~= (StoreV { users: old(self)@.users.map_values(f), ..old(self)@ }));
        }
    }

    /// `UPDATE users SET code_pass = ? WHERE id = ?`: every matching row rewritten, other rows and tables
    /// untouched.
    pub fn add_user_code(&mut self, code: String, user_id: i32)
        requires
            old(self).wf(),
        ensures
            final(self).wf(),
            final(self)@ == (StoreV {
                users: old(self)@.users.map_values(
                    |u: UserV| upd_set_code(u, user_id, code@),
                ),
                ..old(self)@
            }),
    {
        let n = self.users.len();
        let mut i: usize = 0;
        while i < n
            invariant
                i <= n,
                n == self.users@.len(),
                n == old(self).users@.len(),
                forall|j: int|
                    0 <= j < i ==> (#[trigger] self.users@[j])@ == upd_set_code(old(self).users@[j]@, user_id, code@),
                forall|j: int| i <= j < n ==> (#[trigger] self.users@[j]) == old(self).users@[j],
                self.foods == old(self).foods,
                self.reservations == old(self).reservations,
                self.next_user_id == old(self).next_user_id,
                self.next_food_id == old(self).next_food_id,
                self.next_reservation_id == old(self).next_reservation_id,
                self.last_insert_id == old(self).last_insert_id,
                self.now == old(self).now,
            decreases n - i,
        {
            let ghost prev = self.users@;
            if self.users[i].id == user_id {
                let mut row = self.users.remove(i);
                row.code_pass = code.clone();
                let ghost newrow = row;
                self.users.insert(i, row);
                proof {
                    assert(self.users@ =~= prev.update(i as int, newrow));
                    assert(prev[i as int] == old(self).users@[i as int]);
                    assert(newrow@ =~= upd_set_code(old(self).users@[i as int]@, user_id, code@));
                }
            }
            i = i + 1;
        }
        proof {
            let f = |u: UserV| upd_set_code(u, user_id, code@);
            assert forall|j: int| 0 <= j < n implies (#[trigger] self@.users[j])
                == old(self)@.users.map_values(f)[j] by {
                crate::records::lemma_deep_view_index(self.users, j);
                crate::records::lemma_deep_view_index(old(self).users, j);
            }
            assert(self@.users =~= old(self)@.users.map_values(f));
            assert(self@ =~= (StoreV { users: old(self)@.users.map_values(f), ..old(self)@ }));
        }
    }

    /// `UPDATE users SET first_name = ?, last_name = ?, email = ? WHERE id = ? AND is_active = 1`: every matching row rewritten, other rows and tables
    /// untouched.
    pub fn edit_user_profile(&mut self, edit_user_details: &EditUserDetails)
        requires
            old(self).wf(),
        ensures
            final(self).wf(),
            final(self)@ == (StoreV {
                users: old(self)@.users.map_values(
                    |u: UserV| upd_edit_profile(u, edit_user_details.user_id, edit_user_details.first_name@, edit_user_details.last_name@, edit_user_details.email@),
                ),
                ..old(self)@
            }),
    {
        let n = self.users.len();
        let mut i: usize = 0;
        while i < n
            invariant
                i <= n,
                n == self.users@.len(),
                n == old(self).users@.len(),
                forall|j: int|
                    0 <= j < i ==> (#[trigger] self.users@[j])@ == upd_edit_profile(old(self).users@[j]@, edit_user_details.user_id, edit_user_details.first_name@, edit_user_details.last_name@, edit_user_details.email@),
                forall|j: int| i <= j < n ==> (#[trigger] self.users@[j]) == old(self).users@[j],
                self.foods == old(self).foods,
                self.reservations == old(self).reservations,
                self.next_user_id == old(self).next_user_id,
                self.next_food_id == old(self).next_food_id,
                self.next_reservation_id == old(self).next_reservation_id,
                self.last_insert_id == old(self).last_insert_id,
                self.now == old(self).now,
            decreases n - i,
        {
            let ghost prev = self.users@;
            if self.users[i].id == edit_user_details.user_id && self.users[i].is_active {
                let mut row = self.users.remove(i);
                row.first_name = Some(edit_user_details.first_name.clone());
                row.last_name = Some(edit_user_details.last_name.clone());
                row.email = edit_user_details.email.clone();
                let ghost newrow = row;
                self.users.insert(i, row);
                proof {
                    assert(self.users@ =~= prev.update(i as int, newrow));
                    assert(prev[i as int] == old(self).users@[i as int]);
                    assert(newrow@ =~= upd_edit_profile(old(self).users@[i as int]@, edit_user_details.user_id, edit_user_details.first_name@, edit_user_details.last_name@, edit_user_details.email@));
                }
            }
            i = i + 1;
        }
        proof {
            let f = |u: UserV| upd_edit_profile(u, edit_user_details.user_id, edit_user_details.first_name@, edit_user_details.last_name@, edit_user_details.email@);
            assert forall|j: int| 0 <= j < n implies (#[trigger] self@.users[j])
                == old(self)@.users.map_values(f)[j] by {
                crate::records::lemma_deep_view_index(self.users, j);
                crate::records::lemma_deep_view_index(old(self).users, j);
            }
            assert(self@.users =~= old(self)@.users.map_values(f));
            assert(self@ =~= (StoreV { users: old(self)@.users.map_values(f), ..old(self)@ }));
        }
    }

    /// `UPDATE users SET email_verified = 0 WHERE email = ?`: every matching row rewritten, other rows and tables
    /// untouched.
    pub fn change_email_verified(&mut self, user_mail: &String)
        requires
            old(self).wf(),
        ensures
            final(self).wf(),
            final(self)@ == (StoreV {
                users: old(self)@.users.map_values(
                    |u: UserV| upd_unverify(u, user_mail@),
                ),
                ..old(self)@
            }),
    {
        let n = self.users.len();
        let mut i: usize = 0;
        while i < n
            invariant
                i <= n,
                n == self.users@.len(),
                n == old(self).users@.len(),
                forall|j: int|
                    0 <= j < i ==> (#[trigger] self.users@[j])@ == upd_unverify(old(self).users@[j]@, user_mail@),
                forall|j: int| i <= j < n ==> (#[trigger] self.users@[j]) == old(self).users@[j],
                self.foods == old(self).foods,
                self.reservations == old(self).reservations,
                self.next_user_id == old(self).next_user_id,
                self.next_food_id == old(self).next_food_id,
                self.next_reservation_id == old(self).next_reservation_id,
                self.last_insert_id == old(self).last_insert_id,
                self.now == old(self).now,
            decreases n - i,
        {
            let ghost prev = self.users@;
            if self.users[i].email.eq(user_mail) {
                let mut row = self.users.remove(i);
                row.email_verified = false;
                let ghost newrow = row;
                self.users.insert(i, row);
                proof {
                    assert(self.users@ =~= prev.update(i as int, newrow));
                    assert(prev[i as int] == old(self).users@[i as int]);
                    assert(newrow@ =~= upd_unverify(old(self).users@[i as int]@, user_mail@));
                }
            }
            i = i + 1;
        }
        proof {
            let f = |u: UserV| upd_unverify(u, user_mail@);
            assert forall|j: int| 0 <= j < n implies (#[trigger] self@.users[j])
                == old(self)@.users.map_values(f)[j] by {
                crate::records::lemma_deep_view_index(self.users, j);
                crate::records::lemma_deep_view_index(old(self).users, j);
            }
            assert(self@.users =~= old(self)@.users.map_values(f));
            assert(self@ =~= (StoreV { users: old(self)@.users.map_values(f), ..old(self)@ }));
        }
    }

    /// `UPDATE users SET is_active = 0 WHERE id = ? AND email = ?`: every matching row rewritten, other rows and tables
    /// untouched.
    pub fn delete_user_account(&mut self, user_id: i32, user_mail: &String)
        requires
            old(self).wf(),
        ensures
            final(self).wf(),
            final(self)@ == (StoreV {
                users: old(self)@.users.map_values(
                    |u: UserV| upd_deactivate(u, user_id, user_mail@),
                ),
                ..old(self)@
            }),
    {
        let n = self.users.len();
        let mut i: usize = 0;
        while i < n
            invariant
                i <= n,
                n == self.users@.len(),
                n == old(self).users@.len(),
                forall|j: int|
                    0 <= j < i ==> (#[trigger] self.users@[j])@ == upd_deactivate(old(self).users@[j]@, user_id, user_mail@),
                forall|j: int| i <= j < n ==> (#[trigger] self.users@[j]) == old(self).users@[j],
                self.foods == old(self).foods,
                self.reservations == old(self).reservations,
                self.next_user_id == old(self).next_user_id,
                self.next_food_id == old(self).next_food_id,
                self.next_reservation_id == old(self).next_reservation_id,
                self.last_insert_id == old(self).last_insert_id,
                self.now == old(self).now,
            decreases n - i,
        {
            let ghost prev = self.users@;
            if self.users[i].id == user_id && self.users[i].email.eq(user_mail) {
                let mut row = self.users.remove(i);
                row.is_active = false;
                let ghost newrow = row;
                self.users.insert(i, row);
                proof {
                    assert(self.users@ =~= prev.update(i as int, newrow));
                    assert(prev[i as int] == old(self).users@[i as int]);
                    assert(newrow@ =~= upd_deactivate(old(self).users@[i as int]@, user_id, user_mail@));
                }
            }
            i = i + 1;
        }
        proof {
            let f = |u: UserV| upd_deactivate(u, user_id, user_mail@);
            assert forall|j: int| 0 <= j < n implies (#[trigger] self@.users[j])
                == old(self)@.users.map_values(f)[j] by {
                crate::records::lemma_deep_view_index(self.users, j);
                crate::records::lemma_deep_view_index(old(self).users, j);
            }
            assert(self@.users =~= old(self)@.users.map_values(f));
            assert(self@ =~= (StoreV { users: old(self)@.users.map_values(f), ..old(self)@ }));
        }
    }

    /// `UPDATE users SET has_reserve = 1 WHERE id = ?`: every matching row rewritten, other rows and tables
    /// untouched.
    pub fn mark_user_reserve(&mut self, user_id: i32) -> (r: u64)
        requires
            old(self).wf(),
        ensures
            final(self).wf(),
            final(self)@ == (StoreV {
                users: old(self)@.users.map_values(
                    |u: UserV| upd_mark_reserve(u, user_id),
                ),
                ..old(self)@
            }),
            r == old(self)@.last_insert_id,
    {
        let n = self.users.len();
        let mut i: usize = 0;
        while i < n
            invariant
                i <= n,
                n == self.users@.len(),
                n == old(self).users@.len(),
                forall|j: int|
                    0 <= j < i ==> (#[trigger] self.users@[j])@ == upd_mark_reserve(old(self).users@[j]@, user_id),
                forall|j: int| i <= j < n ==> (#[trigger] self.users@[j]) == old(self).users@[j],
                self.foods == old(self).foods,
                self.reservations == old(self).reservations,
                self.next_user_id == old(self).next_user_id,
                self.next_food_id == old(self).next_food_id,
                self.next_reservation_id == old(self).next_reservation_id,
                self.last_insert_id == old(self).last_insert_id,
                self.now == old(self).now,
            decreases n - i,
        {
            let ghost prev = self.users@;
            if self.users[i].id == user_id {
                let mut row = self.users.remove(i);
                row.has_reserve = true;
                let ghost newrow = row;
                self.users.insert(i, row);
                proof {
                    assert(self.users@ =~= prev.update(i as int, newrow));
                    assert(prev[i as int] == old(self).users@[i as int]);
                    assert(newrow@ =~= upd_mark_reserve(old(self).users@[i as int]@, user_id));
                }
            }
            i = i + 1;
        }
        proof {
            let f = |u: UserV| upd_mark_reserve(u, user_id);
            assert forall|j: int| 0 <= j < n implies (#[trigger] self@.users[j])
                == old(self)@.users.map_values(f)[j] by {
                crate::records::lemma_deep_view_index(self.users, j);
                crate::records::lemma_deep_view_index(old(self).users, j);
            }
            assert(self@.users =~= old(self)@.users.map_values(f));
            assert(self@ =~= (StoreV { users: old(self)@.users.map_values(f), ..old(self)@ }));
        }
        self.last_insert_id
    }

    /// `UPDATE users SET profile_image = ? WHERE id = ? AND is_active = 1`:
    /// the payload image is base64; a malformed one is rejected before any
    /// row is touched.
    pub fn edit_profile_picture(&mut self, picture: &PictureDetails) -> (r: Result<(), DataError>)
        requires
            old(self).wf(),
        ensures
            final(self).wf(),
            match picture.profile_image {
                None => r is Ok && final(self)@ == (StoreV {
                    users: old(self)@.users.map_values(
                        |u: UserV| upd_set_picture(u, picture.user_id, None),
                    ),
                    ..old(self)@
                }),
                Some(s) => match b64_decode(encode_utf8(s@)) {
                    Some(d) => r is Ok && final(self)@ == (StoreV {
                        users: old(self)@.users.map_values(
                            |u: UserV| upd_set_picture(u, picture.user_id, Some(d)),
                        ),
                        ..old(self)@
                    }),
                    None => (r matches Err(e) && e is Invalid) && final(self)@ == old(self)@,
                },
            },
    {
        let img: Option<Vec<u8>> = match &picture.profile_image {
            None => None,
            Some(s) => match decode_image(s.as_str()) {
                Some(d) => Some(d),
                None => {
                    return Err(DataError::Invalid);
                },
            },
        };
        let ghost imgv: Option<Seq<u8>> = match &img {
            None => None,
            Some(b) => Some(b@),
        };
        let n = self.users.len();
        let mut i: usize = 0;
        while i < n
            invariant
                i <= n,
                n == self.users@.len(),
                n == old(self).users@.len(),
                (match &img {
                    None => imgv is None,
                    Some(b) => imgv == Some(b@),
                }),
                forall|j: int|
                    0 <= j < i ==> (#[trigger] self.users@[j])@ == upd_set_picture(
                        old(self).users@[j]@,
                        picture.user_id,
                        imgv,
                    ),
                forall|j: int| i <= j < n ==> (#[trigger] self.users@[j]) == old(self).users@[j],
                self.foods == old(self).foods,
                self.reservations == old(self).reservations,
                self.next_user_id == old(self).next_user_id,
                self.next_food_id == old(self).next_food_id,
                self.next_reservation_id == old(self).next_reservation_id,
                self.last_insert_id == old(self).last_insert_id,
                self.now == old(self).now,
            decreases n - i,
        {
            let ghost prev = self.users@;
            if self.users[i].id == picture.user_id && self.users[i].is_active {
                let mut row = self.users.remove(i);
                row.profile_image = clone_opt_bytes(&img);
                let ghost newrow = row;
                self.users.insert(i, row);
                proof {
                    assert(self.users@ =~= prev.update(i as int, newrow));
                    assert(prev[i as int] == old(self).users@[i as int]);
                    assert(newrow@ =~= upd_set_picture(
                        old(self).users@[i as int]@,
                        picture.user_id,
                        imgv,
                    ));
                }
            }
            i = i + 1;
        }
        proof {
            let f = |u: UserV| upd_set_picture(u, picture.user_id, imgv);
            assert forall|j: int| 0 <= j < n implies (#[trigger] self@.users[j])
                == old(self)@.users.map_values(f)[j] by {
                crate::records::lemma_deep_view_index(self.users, j);
                crate::records::lemma_deep_view_index(old(self).users, j);
            }
            assert(self@.users =~= old(self)@.users.map_values(f));
            assert(self@ =~= (StoreV { users: old(self)@.users.map_values(f), ..old(self)@ }));
        }
        Ok(())
    }

    /// `UPDATE foods SET title = ?, description = ?, is_free = ?,
    /// pickup_time = ?, pickup_address = ?, image = ? WHERE id = ?`: the
    /// payload image is base64; a malformed one is rejected before any row
    /// is touched.
    pub fn update_donation(&mut self, food: &FoodDetail2) -> (r: Result<(), DataError>)
        requires
            old(self).wf(),
        ensures
            final(self).wf(),
            match b64_decode(encode_utf8(food.image@)) {
                Some(d) => r is Ok && final(self)@ == (StoreV {
                    foods: old(self)@.foods.map_values(
                        |f: FoodRowV| upd_edit_food(f, *food, d),
                    ),
                    ..old(self)@
                }),
                None => (r matches Err(e) && e is Invalid) && final(self)@ == old(self)@,
            },
    {
        let img: Vec<u8> = match decode_image(food.image.as_str()) {
            Some(d) => d,
            None => {
                return Err(DataError::Invalid);
            },
        };
        let n = self.foods.len();
        let mut i: usize = 0;
        while i < n
            invariant
                i <= n,
                n == self.foods@.len(),
                n == old(self).foods@.len(),
                img@ == b64_decode(encode_utf8(food.image@)).unwrap(),
                forall|j: int|
                    0 <= j < i ==> (#[trigger] self.foods@[j])@ == upd_edit_food(
                        old(self).foods@[j]@,
                        *food,
                        img@,
                    ),
                forall|j: int| i <= j < n ==> (#[trigger] self.foods@[j]) == old(self).foods@[j],
                self.users == old(self).users,
                self.reservations == old(self).reservations,
                self.next_user_id == old(self).next_user_id,
                self.next_food_id == old(self).next_food_id,
                self.next_reservation_id == old(self).next_reservation_id,
                self.last_insert_id == old(self).last_insert_id,
                self.now == old(self).now,
            decreases n - i,
        {
            let ghost prev = self.foods@;
            if self.foods[i].id == food.food_id {
                let mut row = self.foods.remove(i);
                row.title = food.title.clone();
                row.description = food.description.clone();
                row.is_free = food.is_free;
                row.pickup_time = food.pickup_time.clone();
                row.pickup_address = food.pickup_address.clone();
                row.image = clone_bytes(&img);
                let ghost newrow = row;
                self.foods.insert(i, row);
                proof {
                    assert(self.foods@ =~= prev.update(i as int, newrow));
                    assert(prev[i as int] == old(self).foods@[i as int]);
                    assert(newrow@ =~= upd_edit_food(old(self).foods@[i as int]@, *food, img@));
                }
            }
            i = i + 1;
        }
        proof {
            let f = |f: FoodRowV| upd_edit_food(f, *food, img@);
            assert forall|j: int| 0 <= j < n implies (#[trigger] self@.foods[j])
                == old(self)@.foods.map_values(f)[j] by {
                crate::records::lemma_deep_view_index(self.foods, j);
                crate::records::lemma_deep_view_index(old(self).foods, j);
            }
            assert(self@.foods =~= old(self)@.foods.map_values(f));
            assert(self@ =~= (StoreV { foods: old(self)@.foods.map_values(f), ..old(self)@ }));
        }
        Ok(())
    }

    /// The cancellation pair this route issues: `UPDATE reservations SET
    /// status = 'cancelled' WHERE user_id = ? OR food_id = ?` followed by
    /// `UPDATE users SET has_reserve = 0 WHERE id = ?`. The `OR` in the
    /// first statement is the stored behaviour: it also cancels other
    /// users' reservations on the same food item.
    pub fn edit_reservation(&mut self, reserve_details: ReserveDetails)
        requires
            old(self).wf(),
        ensures
            final(self).wf(),
            final(self)@ == (StoreV {
                reservations: old(self)@.reservations.map_values(
                    |r: ReservationV| upd_cancel_reservation(
                        r,
                        reserve_details.user_id,
                        reserve_details.food_id,
                    ),
                ),
                users: old(self)@.users.map_values(
                    |u: UserV| upd_clear_reserve(u, reserve_details.user_id),
                ),
                ..old(self)@
            }),
    {
        let n = self.reservations.len();
        let mut i: usize = 0;
        while i < n
            invariant
                i <= n,
                n == self.reservations@.len(),
                n == old(self).reservations@.len(),
                forall|j: int|
                    0 <= j < i ==> (#[trigger] self.reservations@[j])@ == upd_cancel_reservation(
                        old(self).reservations@[j]@,
                        reserve_details.user_id,
                        reserve_details.food_id,
                    ),
                forall|j: int|
                    i <= j < n ==> (#[trigger] self.reservations@[j]) == old(
                        self,
                    ).reservations@[j],
                self.users == old(self).users,
                self.foods == old(self).foods,
                self.next_user_id == old(self).next_user_id,
                self.next_food_id == old(self).next_food_id,
                self.next_reservation_id == old(self).next_reservation_id,
                self.last_insert_id == old(self).last_insert_id,
                self.now == old(self).now,
            decreases n - i,
        {
            let ghost prev = self.reservations@;
            if self.reservations[i].user_id == reserve_details.user_id || self.reservations[i].food_id
                == reserve_details.food_id {
                let mut row = self.reservations.remove(i);
                row.status = "cancelled".to_owned();
                let ghost newrow = row;
                self.reservations.insert(i, row);
                proof {
                    assert(self.reservations@ =~= prev.update(i as int, newrow));
                    assert(prev[i as int] == old(self).reservations@[i as int]);
                    assert(newrow@ =~= upd_cancel_reservation(
                        old(self).reservations@[i as int]@,
                        reserve_details.user_id,
                        reserve_details.food_id,
                    ));
                }
            }
            i = i + 1;
        }
        let ghost mid_reservations = self.reservations@;
        let m = self.users.len();
        let mut k: usize = 0;
        while k < m
            invariant
                k <= m,
                m == self.users@.len(),
                m == old(self).users@.len(),
                self.reservations@ == mid_reservations,
                n == old(self).reservations@.len(),
                n == mid_reservations.len(),
                forall|j: int|
                    0 <= j < n ==> (#[trigger] mid_reservations[j])@ == upd_cancel_reservation(
                        old(self).reservations@[j]@,
                        reserve_details.user_id,
                        reserve_details.food_id,
                    ),
                forall|j: int|
                    0 <= j < k ==> (#[trigger] self.users@[j])@ == upd_clear_reserve(
                        old(self).users@[j]@,
                        reserve_details.user_id,
                    ),
                forall|j: int| k <= j < m ==> (#[trigger] self.users@[j]) == old(self).users@[j],
                self.foods == old(self).foods,
                self.next_user_id == old(self).next_user_id,
                self.next_food_id == old(self).next_food_id,
                self.next_reservation_id == old(self).next_reservation_id,
                self.last_insert_id == old(self).last_insert_id,
                self.now == old(self).now,
            decreases m - k,
        {
            let ghost prev = self.users@;
            if self.users[k].id == reserve_details.user_id {
                let mut row = self.users.remove(k);
                row.has_reserve = false;
                let ghost newrow = row;
                self.users.insert(k, row);
                proof {
                    assert(self.users@ =~= prev.update(k as int, newrow));
                    assert(prev[k as int] == old(self).users@[k as int]);
                    assert(newrow@ =~= upd_clear_reserve(
                        old(self).users@[k as int]@,
                        reserve_details.user_id,
                    ));
                }
            }
            k = k + 1;
        }
        proof {
            let fr = |r: ReservationV| upd_cancel_reservation(
                r,
                reserve_details.user_id,
                reserve_details.food_id,
            );
            let fu = |u: UserV| upd_clear_reserve(u, reserve_details.user_id);
            assert forall|j: int| 0 <= j < n implies (#[trigger] self@.reservations[j])
                == old(self)@.reservations.map_values(fr)[j] by {
                crate::records::lemma_deep_view_index(self.reservations, j);
                crate::records::lemma_deep_view_index(old(self).reservations, j);
            }
            assert(self@.reservations =~= old(self)@.reservations.map_values(fr));
            assert forall|j: int| 0 <= j < m implies (#[trigger] self@.users[j])
                == old(self)@.users.map_values(fu)[j] by {
                crate::records::lemma_deep_view_index(self.users, j);
                crate::records::lemma_deep_view_index(old(self).users, j);
            }
            assert(self@.users =~= old(self)@.users.map_values(fu));
            assert(self@ =~= (StoreV {
                reservations: old(self)@.reservations.map_values(fr),
                users: old(self)@.users.map_values(fu),
                ..old(self)@
            }));
        }
    }

    /// `DELETE FROM foods WHERE id = ?`: a hard delete, the matching rows
    /// leave the table.
    pub fn delete_food(&mut self, id: i32)
        requires
            old(self).wf(),
        ensures
            final(self).wf(),
            final(self)@.foods == old(self)@.foods.filter(|f: FoodRowV| f.id != id),
            final(self)@ == (StoreV { foods: final(self)@.foods, ..old(self)@ }),
    {
        let ghost orig = self.foods@;
        let mut i: usize = 0;
        let ghost k: int = 0;
        while i < self.foods.len()
            invariant
                orig == old(self).foods@,
                0 <= k <= orig.len(),
                self.foods@ == orig.take(k).filter(|f: FoodRow| f.id != id) + orig.skip(k),
                i as int == orig.take(k).filter(|f: FoodRow| f.id != id).len(),
                i <= self.foods@.len(),
                self.users == old(self).users,
                self.reservations == old(self).reservations,
                self.next_user_id == old(self).next_user_id,
                self.next_food_id == old(self).next_food_id,
                self.next_reservation_id == old(self).next_reservation_id,
                self.last_insert_id == old(self).last_insert_id,
                self.now == old(self).now,
            decreases orig.len() - k,
        {
            proof {
                assert(k < orig.len());
                assert(self.foods@[i as int] == orig.skip(k)[0]);
                assert(orig.skip(k)[0] == orig[k]);
                assert(orig.take(k + 1) =~= orig.take(k).push(orig[k]));
                lemma_filter_push(orig.take(k), orig[k], |f: FoodRow| f.id != id);
            }
            if self.foods[i].id == id {
                self.foods.remove(i);
                proof {
                    assert(orig[k].id == id);
                    assert(self.foods@ =~= orig.take(k + 1).filter(|f: FoodRow| f.id != id)
                        + orig.skip(k + 1));
                }
            } else {
                proof {
                    assert(orig[k].id != id);
                    assert(self.foods@ =~= orig.take(k + 1).filter(|f: FoodRow| f.id != id)
                        + orig.skip(k + 1));
                }
                i = i + 1;
            }
            proof {
                k = k + 1;
            }
        }
        proof {
            assert(orig.skip(k).len() == 0);
            assert(k == orig.len());
            assert(orig.take(k) =~= orig);
            let keep = |f: FoodRow| f.id != id;
            assert(self.foods@ =~= orig.filter(keep));
            let m = |x: FoodRow| x.deep_view();
            let q = |f: FoodRowV| f.id != id;
            assert(forall|x: FoodRow| #[trigger] keep(x) == q(x.deep_view()));
            lemma_filter_deep(orig, keep, q);
            assert(self@.foods =~= self.foods@.map_values(m));
            assert(old(self)@.foods =~= orig.map_values(m));
            assert(self@.foods =~= old(self)@.foods.filter(q));
            lemma_filter_distinct_ids(
                old(self)@.foods,
                q,
                |f: FoodRowV| f.id,
                1,
                old(self)@.next_food_id,
            );
            assert(self@ =~= (StoreV { foods: self@.foods, ..old(self)@ }));
        }
    }

    /// `INSERT INTO users (...) VALUES (...)`: appends a fresh active row,
    /// the password hashed before storage, the counters coerced from their
    /// decimal spellings, everything else at its column default. Fails only
    /// when the id space is exhausted.
    pub fn create_new_user(&mut self, user_details: NewUserDetails) -> (r: Result<i32, DataError>)
        requires
            old(self).wf(),
            user_details.password_hash@.len() < 0x10000000,
        ensures
            final(self).wf(),
            r is Ok <==> old(self)@.next_user_id < i32::MAX,
            match r {
                Ok(id) => ({
                    &&& id == old(self)@.next_user_id
                    &&& final(self)@.users.len() == old(self)@.users.len() + 1
                    &&& final(self)@.users == old(self)@.users.push(final(self)@.users.last())
                    &&& new_user_row_ok(final(self)@.users.last(), user_details, id)
                    &&& final(self)@ == (StoreV {
                        users: final(self)@.users,
                        next_user_id: (id + 1) as i32,
                        last_insert_id: id as u64,
                        ..old(self)@
                    })
                }),
                Err(e) => e is Conflict && final(self)@ == old(self)@,
            },
    {
        if self.next_user_id == i32::MAX {
            return Err(DataError::Conflict);
        }
        let id = self.next_user_id;
        let NewUserDetails {
            email,
            password_hash,
            first_name,
            last_name,
            num_of_food_added,
            num_of_food_taken,
            email_verified: _,
        } = user_details;
        let hash = hash_password(password_hash);
        let added = match &num_of_food_added {
            Some(s) => parse_count(s),
            None => 0,
        };
        let taken = match &num_of_food_taken {
            Some(s) => parse_count(s),
            None => 0,
        };
        let row = UserRow {
            id,
            email,
            password_hash: hash,
            first_name,
            last_name,
            num_of_food_added: added,
            num_of_food_taken: taken,
            profile_image: None,
            email_verified: false,
            code_pass: String::new(),
            has_reserve: false,
            is_active: true,
        };
        let ghost rowv = row@;
        self.users.push(row);
        self.next_user_id = id + 1;
        self.last_insert_id = id as u64;
        proof {
            assert(self@.users =~= old(self)@.users.push(rowv));
            assert(self@ =~= (StoreV {
                users: self@.users,
                next_user_id: (id + 1) as i32,
                last_insert_id: id as u64,
                ..old(self)@
            }));
        }
        Ok(id)
    }

    /// `INSERT INTO foods (...) VALUES (...)`: appends an active row with
    /// the image decoded from its base64 spelling; a malformed image is
    /// rejected before any row is touched. Returns the new id.
    pub fn insert_food(&mut self, food: &FoodDetail) -> (r: Result<u64, DataError>)
        requires
            old(self).wf(),
        ensures
            final(self).wf(),
            r is Ok <==> (b64_decode(encode_utf8(food.image@)) is Some && old(self)@.next_food_id
                < i32::MAX),
            match r {
                Ok(rid) => ({
                    &&& rid == old(self)@.next_food_id as u64
                    &&& final(self)@.foods.len() == old(self)@.foods.len() + 1
                    &&& final(self)@.foods == old(self)@.foods.push(final(self)@.foods.last())
                    &&& new_food_row_ok(final(self)@.foods.last(), *food, old(self)@.next_food_id)
                    &&& final(self)@ == (StoreV {
                        foods: final(self)@.foods,
                        next_food_id: (old(self)@.next_food_id + 1) as i32,
                        last_insert_id: rid,
                        ..old(self)@
                    })
                }),
                Err(e) => ({
                    &&& final(self)@ == old(self)@
                    &&& (e is Invalid <==> b64_decode(encode_utf8(food.image@)) is None)
                    &&& (e is Invalid || e is Conflict)
                }),
            },
    {
        let img = match decode_image(food.image.as_str()) {
            Some(d) => d,
            None => {
                return Err(DataError::Invalid);
            },
        };
        if self.next_food_id == i32::MAX {
            return Err(DataError::Conflict);
        }
        let id = self.next_food_id;
        let row = FoodRow {
            id,
            title: food.title.clone(),
            description: food.description.clone(),
            is_free: food.is_free,
            pickup_time: food.pickup_time.clone(),
            pickup_address: food.pickup_address.clone(),
            user_id: food.user_id,
            image: img,
            status: "active".to_owned(),
        };
        let ghost rowv = row@;
        self.foods.push(row);
        self.next_food_id = id + 1;
        self.last_insert_id = id as u64;
        proof {
            assert(self@.foods =~= old(self)@.foods.push(rowv));
            assert(self@ =~= (StoreV {
                foods: self@.foods,
                next_food_id: (id + 1) as i32,
                last_insert_id: id as u64,
                ..old(self)@
            }));
        }
        Ok(id as u64)
    }

    /// `INSERT INTO reservations (user_id, food_id) VALUES (?, ?)`: appends
    /// an active reservation stamped with the store's clock. Fails only
    /// when the id space is exhausted.
    pub fn make_reserve(&mut self, reserve_details: ReserveDetails) -> (r: Result<(), DataError>)
        requires
            old(self).wf(),
        ensures
            final(self).wf(),
            r is Ok <==> old(self)@.next_reservation_id < i32::MAX,
            match r {
                Ok(_) => ({
                    &&& final(self)@.reservations.len() == old(self)@.reservations.len() + 1
                    &&& final(self)@.reservations == old(self)@.reservations.push(
                        final(self)@.reservations.last(),
                    )
                    &&& final(self)@.reservations.last() == (ReservationV {
                        id: old(self)@.next_reservation_id,
                        user_id: reserve_details.user_id,
                        food_id: reserve_details.food_id,
                        reserved_at: old(self)@.now,
                        status: "active"@,
                    })
                    &&& final(self)@ == (StoreV {
                        reservations: final(self)@.reservations,
                        next_reservation_id: (old(self)@.next_reservation_id + 1) as i32,
                        last_insert_id: old(self)@.next_reservation_id as u64,
                        ..old(self)@
                    })
                }),
                Err(e) => e is Conflict && final(self)@ == old(self)@,
            },
    {
        if self.next_reservation_id == i32::MAX {
            return Err(DataError::Conflict);
        }
        let id = self.next_reservation_id;
        let row = ReservationRow {
            id,
            user_id: reserve_details.user_id,
            food_id: reserve_details.food_id,
            reserved_at: self.now.clone(),
            status: "active".to_owned(),
        };
        let ghost rowv = row@;
        self.reservations.push(row);
        self.next_reservation_id = id + 1;
        self.last_insert_id = id as u64;
        proof {
            assert(self@.reservations =~= old(self)@.reservations.push(rowv));
            assert(rowv =~= (ReservationV {
                id: id,
                user_id: reserve_details.user_id,
                food_id: reserve_details.food_id,
                reserved_at: old(self)@.now,
                status: "active"@,
            }));
            assert(self@ =~= (StoreV {
                reservations: self@.reservations,
                next_reservation_id: (id + 1) as i32,
                last_insert_id: id as u64,
                ..old(self)@
            }));
        }
        Ok(())
    }

    /// Builds the wire form of a foods row.
    fn food_of_row(row: &FoodRow) -> (r: Food)
        ensures
            r@ == food_wire_of(row@),
    {
        let r = Food {
            id: Some(row.id),
            title: Some(row.title.clone()),
            description: Some(row.description.clone()),
            is_free: Some(if row.is_free { 1 } else { 0 }),
            pickup_time: Some(row.pickup_time.clone()),
            pickup_address: Some(row.pickup_address.clone()),
            user_id: Some(row.user_id),
            image: Some(encode_image(&row.image)),
            status: Some(row.status.clone()),
        };
        proof {
            assert(r@ =~= food_wire_of(row@));
        }
        r
    }

    /// Index of the first users row with this id.
    fn user_index_by_id(&self, id: i32) -> (r: Option<usize>)
        ensures
            match r {
                Some(j) => j < self@.users.len() && self@.users[j as int].id == id
                    && find_user_by_id(self@.users, id) == Some(self@.users[j as int]),
                None => find_user_by_id(self@.users, id) is None,
            },
    {
        let n = self.users.len();
        let mut i: usize = 0;
        while i < n
            invariant
                i <= n,
                n == self.users@.len(),
                forall|k: int| 0 <= k < i ==> (#[trigger] self@.users[k]).id != id,
            decreases n - i,
        {
            if self.users[i].id == id {
                proof {
                    lemma_find_first_found(self@.users, |u: UserV| u.id == id, i as int);
                }
                return Some(i);
            }
            i = i + 1;
        }
        proof {
            lemma_find_first_none(self@.users, |u: UserV| u.id == id);
        }
        None
    }

    /// Index of the first foods row with this id.
    fn food_index_by_id(&self, id: i32) -> (r: Option<usize>)
        ensures
            match r {
                Some(j) => j < self@.foods.len() && self@.foods[j as int].id == id
                    && find_food_by_id(self@.foods, id) == Some(self@.foods[j as int]),
                None => find_food_by_id(self@.foods, id) is None,
            },
    {
        let n = self.foods.len();
        let mut i: usize = 0;
        while i < n
            invariant
                i <= n,
                n == self.foods@.len(),
                forall|k: int| 0 <= k < i ==> (#[trigger] self@.foods[k]).id != id,
            decreases n - i,
        {
            if self.foods[i].id == id {
                proof {
                    lemma_find_first_found(self@.foods, |f: FoodRowV| f.id == id, i as int);
                }
                return Some(i);
            }
            i = i + 1;
        }
        proof {
            lemma_find_first_none(self@.foods, |f: FoodRowV| f.id == id);
        }
        None
    }

    /// `SELECT ... FROM foods`: every row, in table order.
    pub fn get_all_food(&self) -> (r: Vec<Food>)
        ensures
            r.deep_view() == self@.foods.map_values(|f: FoodRowV| food_wire_of(f)),
    {
        let n = self.foods.len();
        let mut out: Vec<Food> = Vec::new();
        let mut i: usize = 0;
        while i < n
            invariant
                i <= n,
                n == self.foods@.len(),
                out@.len() == i,
                forall|j: int| 0 <= j < i ==> (#[trigger] out@[j])@ == food_wire_of(self@.foods[j]),
            decreases n - i,
        {
            out.push(Self::food_of_row(&self.foods[i]));
            i = i + 1;
        }
        proof {
            assert(out.deep_view() =~= self@.foods.map_values(|f: FoodRowV| food_wire_of(f)));
        }
        out
    }

    /// `SELECT ... FROM foods WHERE user_id = ?`: the user's donations.
    pub fn get_all_donations(&self, user_id: i32) -> (r: Vec<Food>)
        ensures
            r.deep_view() == self@.foods.filter(|f: FoodRowV| f.user_id == user_id).map_values(
                |f: FoodRowV| food_wire_of(f),
            ),
    {
        let n = self.foods.len();
        let mut out: Vec<Food> = Vec::new();
        let mut i: usize = 0;
        proof {
            assert(self@.foods.take(0) =~= Seq::<FoodRowV>::empty());
            reveal(Seq::filter);
        }
        while i < n
            invariant
                i <= n,
                n == self.foods@.len(),
                out.deep_view() == self@.foods.take(i as int).filter(
                    |f: FoodRowV| f.user_id == user_id,
                ).map_values(|f: FoodRowV| food_wire_of(f)),
            decreases n - i,
        {
            let ghost pred = |f: FoodRowV| f.user_id == user_id;
            let ghost wire = |f: FoodRowV| food_wire_of(f);
            proof {
                assert(self@.foods.take(i + 1) =~= self@.foods.take(i as int).push(
                    self@.foods[i as int],
                ));
                lemma_filter_push(self@.foods.take(i as int), self@.foods[i as int], pred);
            }
            if self.foods[i].user_id == user_id {
                let ghost prior = out.deep_view();
                let v = Self::food_of_row(&self.foods[i]);
                let ghost vv = v@;
                out.push(v);
                proof {
                    lemma_map_values_push(
                        self@.foods.take(i as int).filter(pred),
                        self@.foods[i as int],
                        wire,
                    );
                    assert(out.deep_view() =~= prior.push(vv));
                    assert(vv == wire(self@.foods[i as int]));
                    assert(out.deep_view() =~= self@.foods.take(i + 1).filter(pred).map_values(
                        wire,
                    ));
                }
            } else {
                proof {
                    assert(!pred(self@.foods[i as int]));
                    assert(out.deep_view() =~= self@.foods.take(i + 1).filter(pred).map_values(
                        wire,
                    ));
                }
            }
            i = i + 1;
        }
        proof {
            assert(self@.foods.take(n as int) =~= self@.foods);
        }
        out
    }

    /// `SELECT ... FROM foods WHERE user_id = ? AND status = 'active'`: the
    /// user's donations still listed.
    pub fn get_active_donation(&self, user_id: i32) -> (r: Vec<Food>)
        ensures
            r.deep_view() == self@.foods.filter(
                |f: FoodRowV| f.user_id == user_id && f.status == "active"@,
            ).map_values(|f: FoodRowV| food_wire_of(f)),
    {
        let n = self.foods.len();
        let active = "active".to_owned();
        let mut out: Vec<Food> = Vec::new();
        let mut i: usize = 0;
        proof {
            assert(self@.foods.take(0) =~= Seq::<FoodRowV>::empty());
            reveal(Seq::filter);
        }
        while i < n
            invariant
                i <= n,
                n == self.foods@.len(),
                active@ == "active"@,
                out.deep_view() == self@.foods.take(i as int).filter(
                    |f: FoodRowV| f.user_id == user_id && f.status == "active"@,
                ).map_values(|f: FoodRowV| food_wire_of(f)),
            decreases n - i,
        {
            let ghost pred = |f: FoodRowV| f.user_id == user_id && f.status == "active"@;
            let ghost wire = |f: FoodRowV| food_wire_of(f);
            proof {
                assert(self@.foods.take(i + 1) =~= self@.foods.take(i as int).push(
                    self@.foods[i as int],
                ));
                lemma_filter_push(self@.foods.take(i as int), self@.foods[i as int], pred);
            }
            if self.foods[i].user_id == user_id && self.foods[i].status.eq(&active) {
                let ghost prior = out.deep_view();
                let v = Self::food_of_row(&self.foods[i]);
                let ghost vv = v@;
                out.push(v);
                proof {
                    lemma_map_values_push(
                        self@.foods.take(i as int).filter(pred),
                        self@.foods[i as int],
                        wire,
                    );
                    assert(out.deep_view() =~= prior.push(vv));
                    assert(vv == wire(self@.foods[i as int]));
                    assert(out.deep_view() =~= self@.foods.take(i + 1).filter(pred).map_values(
                        wire,
                    ));
                }
            } else {
                proof {
                    assert(!pred(self@.foods[i as int]));
                    assert(out.deep_view() =~= self@.foods.take(i + 1).filter(pred).map_values(
                        wire,
                    ));
                }
            }
            i = i + 1;
        }
        proof {
            assert(self@.foods.take(n as int) =~= self@.foods);
        }
        out
    }

    /// `SELECT ... FROM users WHERE email = ? AND is_active = 1`,
    /// `fetch_optional`: the login fetch. The password comparison is the
    /// caller's business.
    pub fn login_user(&self, login_details: &LoginDetail) -> (r: Option<UserDetails>)
        ensures
            match find_active_user_by_email(self@.users, login_details.email@) {
                Some(u) => r matches Some(d) && d@ == user_details_wire_of(u),
                None => r is None,
            },
    {
        let n = self.users.len();
        let mut i: usize = 0;
        while i < n
            invariant
                i <= n,
                n == self.users@.len(),
                forall|k: int|
                    0 <= k < i ==> !((#[trigger] self@.users[k]).is_active && self@.users[k].email
                        == login_details.email@),
            decreases n - i,
        {
            if self.users[i].is_active && self.users[i].email.eq(&login_details.email) {
                proof {
                    lemma_find_first_found(
                        self@.users,
                        |u: UserV| u.is_active && u.email == login_details.email@,
                        i as int,
                    );
                }
                let row = &self.users[i];
                let d = UserDetails {
                    id: Some(row.id),
                    email: Some(row.email.clone()),
                    first_name: clone_opt_string(&row.first_name),
                    last_name: clone_opt_string(&row.last_name),
                    num_of_food_added: Some(row.num_of_food_added),
                    num_of_food_taken: Some(row.num_of_food_taken),
                    profile_image: encode_opt_image(&row.profile_image),
                    email_verified: Some(if row.email_verified { 1 } else { 0 }),
                    password_hash: row.password_hash.clone(),
                };
                proof {
                    assert(d@ =~= user_details_wire_of(self@.users[i as int]));
                }
                return Some(d);
            }
            i = i + 1;
        }
        proof {
            lemma_find_first_none(
                self@.users,
                |u: UserV| u.is_active && u.email == login_details.email@,
            );
        }
        None
    }

    /// `SELECT ... FROM users WHERE id = ?`, `fetch_one`: the profile view.
    pub fn get_user_profile(&self, user_id: i32) -> (r: Result<GetUserDetails, DataError>)
        ensures
            match find_user_by_id(self@.users, user_id) {
                Some(u) => r matches Ok(d) && d@ == profile_wire_of(u),
                None => r matches Err(e) && e is NotFound,
            },
    {
        match self.user_index_by_id(user_id) {
            Some(j) => {
                let row = &self.users[j];
                let d = GetUserDetails {
                    id: Some(row.id),
                    email: Some(row.email.clone()),
                    first_name: clone_opt_string(&row.first_name),
                    last_name: clone_opt_string(&row.last_name),
                    num_of_food_added: Some(row.num_of_food_added),
                    num_of_food_taken: Some(row.num_of_food_taken),
                    profile_image: encode_opt_image(&row.profile_image),
                    email_verified: Some(if row.email_verified { 1 } else { 0 }),
                };
                proof {
                    assert(d@ =~= profile_wire_of(self@.users[j as int]));
                }
                Ok(d)
            },
            None => Err(DataError::NotFound),
        }
    }

    /// `SELECT ... FROM foods WHERE id = ?`, `fetch_one`: the food detail
    /// view.
    pub fn get_food_detail(&self, food_id: i32) -> (r: Result<Food, DataError>)
        ensures
            match find_food_by_id(self@.foods, food_id) {
                Some(f) => r matches Ok(d) && d@ == food_wire_of(f),
                None => r matches Err(e) && e is NotFound,
            },
    {
        match self.food_index_by_id(food_id) {
            Some(j) => Ok(Self::food_of_row(&self.foods[j])),
            None => Err(DataError::NotFound),
        }
    }

    /// `SELECT code_pass FROM users WHERE id = ?`, `fetch_one`, then the
    /// exact comparison: whether the submitted code is the stored one.
    pub fn verify_user_code(&self, user_code: &UserCodeDetails) -> (r: Result<bool, DataError>)
        ensures
            match find_user_by_id(self@.users, user_code.user_id) {
                Some(u) => r matches Ok(b) && b == (u.code_pass == user_code.user_code@),
                None => r matches Err(e) && e is NotFound,
            },
    {
        match self.user_index_by_id(user_code.user_id) {
            Some(j) => Ok(check_code(&user_code.user_code, self.users[j].code_pass.clone())),
            None => Err(DataError::NotFound),
        }
    }

    /// `SELECT email FROM users WHERE id = ?`, `fetch_one`, then the exact
    /// comparison: whether the candidate email is the stored one.
    pub fn get_email(&self, user_id: &i32, inputted_email: &String) -> (r: Result<
        bool,
        DataError,
    >)
        ensures
            match find_user_by_id(self@.users, *user_id) {
                Some(u) => r matches Ok(b) && b == (inputted_email@ == u.email),
                None => r matches Err(e) && e is NotFound,
            },
    {
        match self.user_index_by_id(*user_id) {
            Some(j) => Ok(compare_email(inputted_email, &self.users[j].email)),
            None => Err(DataError::NotFound),
        }
    }

    /// `SELECT has_reserve FROM users WHERE id = ? AND has_reserve = 1`,
    /// `fetch_optional`: whether the user is flagged as holding a
    /// reservation.
    pub fn check_if_user_has_reserve(&self, user_id: i32) -> (r: bool)
        ensures
            r == user_has_reserve_flag(self@, user_id),
    {
        let n = self.users.len();
        let mut i: usize = 0;
        while i < n
            invariant
                i <= n,
                n == self.users@.len(),
                forall|k: int|
                    0 <= k < i ==> !((#[trigger] self@.users[k]).id == user_id
                        && self@.users[k].has_reserve),
            decreases n - i,
        {
            if self.users[i].id == user_id && self.users[i].has_reserve {
                proof {
                    assert(self@.users[i as int].id == user_id
                        && self@.users[i as int].has_reserve);
                }
                return true;
            }
            i = i + 1;
        }
        false
    }

    /// `SELECT ... FROM reservations WHERE id = ?`, `fetch_one`: one
    /// reservation by id.
    pub fn get_reservation_details(&self, id: u64) -> (r: Result<ReservationDetails, DataError>)
        requires
            self.wf(),
        ensures
            match find_reservation_by_id(self@.reservations, id) {
                Some(rv) => r matches Ok(d) && d@ == reservation_wire_of(rv),
                None => r matches Err(e) && e is NotFound,
            },
    {
        let n = self.reservations.len();
        let mut i: usize = 0;
        while i < n
            invariant
                i <= n,
                n == self.reservations@.len(),
                self.wf(),
                forall|k: int| 0 <= k < i ==> (#[trigger] self@.reservations[k]).id as u64 != id,
            decreases n - i,
        {
            let row_id = self.reservations[i].id;
            proof {
                assert(self@.reservations[i as int].id >= 1);
            }
            if row_id as u64 == id {
                proof {
                    lemma_find_first_found(
                        self@.reservations,
                        |rv: ReservationV| rv.id as u64 == id,
                        i as int,
                    );
                }
                let row = &self.reservations[i];
                let d = ReservationDetails {
                    id: row.id,
                    user_id: row.user_id,
                    food_id: row.food_id,
                    reserved_at: Some(row.reserved_at.clone()),
                    status: Some(row.status.clone()),
                };
                proof {
                    assert(d@ =~= reservation_wire_of(self@.reservations[i as int]));
                }
                return Ok(d);
            }
            i = i + 1;
        }
        proof {
            lemma_find_first_none(self@.reservations, |rv: ReservationV| rv.id as u64 == id);
        }
        Err(DataError::NotFound)
    }

    /// The reservation listing of a user: `SELECT ... FROM reservations r
    /// INNER JOIN users u ON u.id = r.user_id INNER JOIN foods f ON f.id =
    /// r.food_id WHERE r.user_id = ?`, in reservation table order.
    pub fn get_user_reservations(&self, user_id: i32) -> (r: Vec<AllReserves>)
        ensures
            r.deep_view() == self@.reservations.filter(
                |rv: ReservationV| joinable(self@, rv, user_id),
            ).map_values(|rv: ReservationV| join_row(self@, rv)),
    {
        let n = self.reservations.len();
        let mut out: Vec<AllReserves> = Vec::new();
        let mut i: usize = 0;
        proof {
            assert(self@.reservations.take(0) =~= Seq::<ReservationV>::empty());
            reveal(Seq::filter);
        }
        while i < n
            invariant
                i <= n,
                n == self.reservations@.len(),
                out.deep_view() == self@.reservations.take(i as int).filter(
                    |rv: ReservationV| joinable(self@, rv, user_id),
                ).map_values(|rv: ReservationV| join_row(self@, rv)),
            decreases n - i,
        {
            let ghost pred = |rv: ReservationV| joinable(self@, rv, user_id);
            let ghost wire = |rv: ReservationV| join_row(self@, rv);
            proof {
                assert(self@.reservations.take(i + 1) =~= self@.reservations.take(i as int).push(
                    self@.reservations[i as int],
                ));
                lemma_filter_push(
                    self@.reservations.take(i as int),
                    self@.reservations[i as int],
                    pred,
                );
            }
            let mut matched = false;
            if self.reservations[i].user_id == user_id {
                let uix = self.user_index_by_id(self.reservations[i].user_id);
                let fix = self.food_index_by_id(self.reservations[i].food_id);
                match (uix, fix) {
                    (Some(uj), Some(fj)) => {
                        let urow = &self.users[uj];
                        let frow = &self.foods[fj];
                        let a = AllReserves {
                            food_id: self.reservations[i].food_id,
                            title: Some(frow.title.clone()),
                            description: Some(frow.description.clone()),
                            first_name: clone_opt_string(&urow.first_name),
                            image: Some(encode_image(&frow.image)),
                        };
                        proof {
                            assert(a@ =~= join_row(self@, self@.reservations[i as int]));
                        }
                        let ghost prior = out.deep_view();
                        let ghost av = a@;
                        out.push(a);
                        matched = true;
                        proof {
                            assert(pred(self@.reservations[i as int]));
                            lemma_map_values_push(
                                self@.reservations.take(i as int).filter(pred),
                                self@.reservations[i as int],
                                wire,
                            );
                            assert(out.deep_view() =~= prior.push(av));
                            assert(av == wire(self@.reservations[i as int]));
                            assert(out.deep_view() =~= self@.reservations.take(i + 1).filter(
                                pred,
                            ).map_values(wire));
                        }
                    },
                    _ => {},
                }
            }
            proof {
                if !matched {
                    assert(!pred(self@.reservations[i as int]));
                    assert(out.deep_view() =~= self@.reservations.take(i + 1).filter(
                        pred,
                    ).map_values(wire));
                }
            }
            i = i + 1;
        }
        proof {
            assert(self@.reservations.take(n as int) =~= self@.reservations);
        }
        out
    }

    /// The user's single active reservation: `SELECT ... WHERE r.user_id =
    /// ? AND u.has_reserve = 1 AND r.status = 'active'`, `fetch_one`:
    /// `NotFound` when no joined row matches.
    pub fn get_active_reserve(&self, user_id: i32) -> (r: Result<ActiveReserve, DataError>)
        ensures
            match find_user_by_id(self@.users, user_id) {
                Some(u) => if u.has_reserve {
                    match find_first(
                        self@.reservations,
                        |rv: ReservationV| rv.user_id == user_id && rv.status == "active"@
                            && find_food_by_id(self@.foods, rv.food_id) is Some,
                    ) {
                        Some(rv) => r matches Ok(a) && a@ == active_reserve_wire_of(
                            rv,
                            u,
                            find_food_by_id(self@.foods, rv.food_id).unwrap(),
                        ),
                        None => r matches Err(e) && e is NotFound,
                    }
                } else {
                    r matches Err(e) && e is NotFound
                },
                None => r matches Err(e) && e is NotFound,
            },
    {
        let uix = match self.user_index_by_id(user_id) {
            Some(j) => j,
            None => {
                return Err(DataError::NotFound);
            },
        };
        if !self.users[uix].has_reserve {
            return Err(DataError::NotFound);
        }
        let active = "active".to_owned();
        let n = self.reservations.len();
        let mut i: usize = 0;
        while i < n
            invariant
                i <= n,
                n == self.reservations@.len(),
                active@ == "active"@,
                uix < self.users@.len(),
                find_user_by_id(self@.users, user_id) == Some(self@.users[uix as int]),
                self@.users[uix as int].has_reserve,
                forall|k: int|
                    0 <= k < i ==> !((#[trigger] self@.reservations[k]).user_id == user_id
                        && self@.reservations[k].status == "active"@ && find_food_by_id(
                        self@.foods,
                        self@.reservations[k].food_id,
                    ) is Some),
            decreases n - i,
        {
            if self.reservations[i].user_id == user_id && self.reservations[i].status.eq(&active) {
                match self.food_index_by_id(self.reservations[i].food_id) {
                    Some(fj) => {
                        proof {
                            lemma_find_first_found(
                                self@.reservations,
                                |rv: ReservationV| rv.user_id == user_id && rv.status == "active"@
                                    && find_food_by_id(self@.foods, rv.food_id) is Some,
                                i as int,
                            );
                        }
                        let urow = &self.users[uix];
                        let frow = &self.foods[fj];
                        let a = ActiveReserve {
                            food_id: self.reservations[i].food_id,
                            title: Some(frow.title.clone()),
                            description: Some(frow.description.clone()),
                            first_name: clone_opt_string(&urow.first_name),
                            image: Some(encode_image(&frow.image)),
                            pickup_time: Some(frow.pickup_time.clone()),
                            pickup_address: Some(frow.pickup_address.clone()),
                        };
                        proof {
                            assert(a@ =~= active_reserve_wire_of(
                                self@.reservations[i as int],
                                self@.users[uix as int],
                                find_food_by_id(
                                    self@.foods,
                                    self@.reservations[i as int].food_id,
                                ).unwrap(),
                            ));
                        }
                        return Ok(a);
                    },
                    None => {},
                }
            }
            i = i + 1;
        }
        proof {
            lemma_find_first_none(
                self@.reservations,
                |rv: ReservationV| rv.user_id == user_id && rv.status == "active"@
                    && find_food_by_id(self@.foods, rv.food_id) is Some,
            );
        }
        Err(DataError::NotFound)
    }
}

} // verus!
