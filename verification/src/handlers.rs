//! One verified function per endpoint: each takes an already-decoded typed
//! payload, orchestrates the store operations its route performs, and
//! produces the uniform response envelope. Endpoints
//! that must also send mail return the prepared mail job instead; the
//! caller performs the send and maps its outcome through the matching
//! response function.

use vstd::prelude::*;
use crate::codec::b64_decode;
use crate::credentials::compare_password;
use crate::credentials::generate_code;
use crate::credentials::is_verification_code;
use crate::credentials::verifies;
use crate::records::ApiResponse;
use crate::records::EditUserDetails;
use crate::records::Food;
use crate::records::FoodDetail;
use crate::records::FoodDetail2;
use crate::records::FoodV;
use crate::records::GetUserDetails;
use crate::records::LoginDetail;
use crate::records::MajesticRes;
use crate::records::NewUserDetails;
use crate::records::PictureDetails;
use crate::records::PicturePayload;
use crate::records::ReservationDetails;
use crate::records::ReserveDetails;
use crate::records::UserCodeDetails;
use crate::records::UserDetails;
use crate::records::ActiveReserve;
use crate::records::AllReserves;
use crate::records::failure;
use crate::records::failure_with;
use crate::records::success;
use crate::store::Store;
use crate::store::StoreV;
use crate::store::FoodRowV;
use crate::store::ReservationV;
use crate::store::UserV;
use crate::store::email_taken;
use crate::store::find_active_user_by_email;
use crate::store::find_user_by_id;
use crate::store::find_food_by_id;
use crate::store::food_wire_of;
use crate::store::joinable;
use crate::store::join_row;
use crate::store::new_food_row_ok;
use crate::store::new_user_row_ok;
use crate::store::profile_wire_of;
use crate::store::upd_inc_food_count;
use crate::store::user_details_wire_of;
use crate::store::user_has_reserve_flag;
use vstd::utf8::encode_utf8;

verus! {

/// A food id taken from the request path.
pub struct FoodId {
    pub food_id: i32,
}

/// What the whole food listing looks like: every foods row on the wire, in
/// table order.
pub open spec fn spec_food_list(s: StoreV) -> Seq<FoodV> {
    s.foods.map_values(|f: FoodRowV| food_wire_of(f))
}

/// `GET /foods`: the full food list, always successful.
pub fn get_food_list(store: &Store) -> (r: ApiResponse<Vec<Food>>)
    ensures
        r.success,
        r.message@ == "sucessfull"@,
        r.data matches Some(l) && l.deep_view() == spec_food_list(store@),
{
    let food = store.get_all_food();
    success("sucessfull", food)
}

/// Law: the food listing is a function of the store alone, so two fetches
/// with no write between them return the same rows.
pub proof fn lemma_food_list_idempotent(s: StoreV, a: Seq<FoodV>, b: Seq<FoodV>)
    requires
        a == spec_food_list(s),
        b == spec_food_list(s),
    ensures
        a == b,
{
}

/// `GET /users/{id}`: the profile view.
pub fn get_user_profile_details(store: &Store, path: i32) -> (r: ApiResponse<GetUserDetails>)
    ensures
        match find_user_by_id(store@.users, path) {
            Some(u) => r.success && r.message@ == "successful"@ && (r.data matches Some(d) && d@
                == profile_wire_of(u)),
            None => !r.success && r.data is None && r.message@
                == "There was an error getting user details: "@ + "no matching row"@,
        },
{
    match store.get_user_profile(path) {
        Ok(user_details) => success("successful", user_details),
        Err(err) => failure_with("There was an error getting user details: ", &err),
    }
}

/// `GET /foods/{id}`: the food detail view.
pub fn get_food_profile_details(store: &Store, path: i32) -> (r: ApiResponse<Food>)
    ensures
        match find_food_by_id(store@.foods, path) {
            Some(f) => r.success && r.message@ == "successfull"@ && (r.data matches Some(d) && d@
                == food_wire_of(f)),
            None => !r.success && r.data is None && r.message@
                == "There was an error getting user details: "@ + "no matching row"@,
        },
{
    match store.get_food_detail(path) {
        Ok(food_details) => success("successfull", food_details),
        Err(err) => failure_with("There was an error getting user details: ", &err),
    }
}

/// `GET /users/{id}/donations`: every donation of the user.
pub fn get_donations(store: &Store, path: i32) -> (r: ApiResponse<Vec<Food>>)
    ensures
        r.success,
        r.message@ == "successfull"@,
        r.data matches Some(l) && l.deep_view() == store@.foods.filter(
            |f: FoodRowV| f.user_id == path,
        ).map_values(|f: FoodRowV| food_wire_of(f)),
{
    let all_donations = store.get_all_donations(path);
    success("successfull", all_donations)
}

/// `GET /donations/{id}/active`: the user's donations still listed.
pub fn get_user_active_donations(store: &Store, path: i32) -> (r: ApiResponse<Vec<Food>>)
    ensures
        r.success,
        r.message@ == "successfull"@,
        r.data matches Some(l) && l.deep_view() == store@.foods.filter(
            |f: FoodRowV| f.user_id == path && f.status == "active"@,
        ).map_values(|f: FoodRowV| food_wire_of(f)),
{
    let all_donations = store.get_active_donation(path);
    success("successfull", all_donations)
}

/// `GET /users/{id}/reservations`: the user's reservation listing, joined
/// with food and user data.
pub fn get_reserves(store: &Store, path: i32) -> (r: ApiResponse<Vec<AllReserves>>)
    ensures
        r.success,
        r.message@ == "successfull"@,
        r.data matches Some(l) && l.deep_view() == store@.reservations.filter(
            |rv: ReservationV| joinable(store@, rv, path),
        ).map_values(|rv: ReservationV| join_row(store@, rv)),
{
    let all_reserves = store.get_user_reservations(path);
    success("successfull", all_reserves)
}

/// `GET /users/{id}/reserve`: the user's single active reservation.
pub fn get_user_active_reserve(store: &Store, path: i32) -> (r: ApiResponse<ActiveReserve>)
    ensures
        match crate::store::find_user_by_id(store@.users, path) {
            Some(u) => if u.has_reserve {
                match crate::store::find_first(
                    store@.reservations,
                    |rv: ReservationV| rv.user_id == path && rv.status == "active"@
                        && find_food_by_id(store@.foods, rv.food_id) is Some,
                ) {
                    Some(rv) => r.success && r.message@ == "successfull"@ && (r.data matches Some(
                        a,
                    ) && a@ == crate::store::active_reserve_wire_of(
                        rv,
                        u,
                        find_food_by_id(store@.foods, rv.food_id).unwrap(),
                    )),
                    None => !r.success && r.data is None && r.message@
                        == "error getting active reservation: "@ + "no matching row"@,
                }
            } else {
                !r.success && r.data is None && r.message@
                    == "error getting active reservation: "@ + "no matching row"@
            },
            None => !r.success && r.data is None && r.message@
                == "error getting active reservation: "@ + "no matching row"@,
        },
{
    match store.get_active_reserve(path) {
        Ok(active_reserve) => success("successfull", active_reserve),
        Err(err) => failure_with("error getting active reservation: ", &err),
    }
}

/// `DELETE /foods/{food_id}`: hard-deletes the food item.
pub fn delete_food_handler(store: &mut Store, path: FoodId) -> (r: ApiResponse<Option<()>>)
    requires
        old(store).wf(),
    ensures
        final(store).wf(),
        r.success,
        r.message@ == "Food deleted"@,
        final(store)@.foods == old(store)@.foods.filter(
            |f: FoodRowV| f.id != path.food_id,
        ),
        final(store)@ == (StoreV { foods: final(store)@.foods, ..old(store)@ }),
{
    store.delete_food(path.food_id);
    success("Food deleted", None)
}

/// Whether a login attempt carries the password of an active account.
pub open spec fn login_ok(s: StoreV, email: Seq<char>, password: Seq<char>) -> bool {
    match find_active_user_by_email(s.users, email) {
        Some(u) => verifies(password, u.password_hash),
        None => false,
    }
}

/// `POST /login`: fetch by email, then compare the password. An unknown
/// email and a wrong password produce the very same envelope, so the
/// response does not reveal which emails exist.
pub fn login_user_handler(store: &Store, user: LoginDetail) -> (r: ApiResponse<UserDetails>)
    ensures
        !login_ok(store@, user.email@, user.password_hash@) <==> (!r.success && r.message@
            == "incorrect password"@ && r.data is None),
        login_ok(store@, user.email@, user.password_hash@) ==> r.success && r.message@
            == "login successfully"@ && (r.data matches Some(d) && d@ == user_details_wire_of(
            find_active_user_by_email(store@.users, user.email@).unwrap(),
        )),
{
    match store.login_user(&user) {
        Some(user_from_db) => {
            if compare_password(user.password_hash.as_str(), user_from_db.password_hash.as_str()) {
                success("login successfully", user_from_db)
            } else {
                failure("incorrect password")
            }
        },
        None => failure("incorrect password"),
    }
}

/// `POST /users`: registration. An email already bound to an active user is
/// rejected with a conflict and the store stays exactly as it was.
pub fn add_user(store: &mut Store, user_details: NewUserDetails) -> (r: ApiResponse<i32>)
    requires
        old(store).wf(),
        user_details.password_hash@.len() < 0x10000000,
    ensures
        final(store).wf(),
        email_taken(old(store)@, user_details.email@) ==> (!r.success && r.message@
            == "email already exists"@ && r.data is None) && final(store)@ == old(store)@,
        (!email_taken(old(store)@, user_details.email@) && old(store)@.next_user_id < i32::MAX)
            ==> ({
            &&& r.success
            &&& r.message@ == "user added successfully"@
            &&& r.data == Some(old(store)@.next_user_id)
            &&& final(store)@.users.len() == old(store)@.users.len() + 1
            &&& final(store)@.users == old(store)@.users.push(final(store)@.users.last())
            &&& new_user_row_ok(
                final(store)@.users.last(),
                user_details,
                old(store)@.next_user_id,
            )
            &&& final(store)@ == (StoreV {
                users: final(store)@.users,
                next_user_id: (old(store)@.next_user_id + 1) as i32,
                last_insert_id: old(store)@.next_user_id as u64,
                ..old(store)@
            })
        }),
        (!email_taken(old(store)@, user_details.email@) && old(store)@.next_user_id == i32::MAX)
            ==> !r.success && r.message@ == "There was an error "@ + "constraint violated"@
            && final(store)@ == old(store)@,
{
    let exists_already = store.check_if_email_exists(user_details.email.clone());
    if !exists_already {
        match store.create_new_user(user_details) {
            Ok(user_id) => success("user added successfully", user_id),
            Err(err) => failure_with("There was an error ", &err),
        }
    } else {
        failure("email already exists")
    }
}

/// `POST /foods`: inserts the donation, then bumps the donor's counter as a
/// separate second statement.
pub fn add_food(store: &mut Store, food: FoodDetail) -> (r: ApiResponse<u64>)
    requires
        old(store).wf(),
    ensures
        final(store).wf(),
        (b64_decode(encode_utf8(food.image@)) is Some && old(store)@.next_food_id < i32::MAX)
            ==> ({
            &&& r.success
            &&& r.message@ == "food inserted successfully"@
            &&& r.data == Some(old(store)@.next_food_id as u64)
            &&& final(store)@.foods.len() == old(store)@.foods.len() + 1
            &&& final(store)@.foods == old(store)@.foods.push(final(store)@.foods.last())
            &&& new_food_row_ok(final(store)@.foods.last(), food, old(store)@.next_food_id)
            &&& final(store)@.users == old(store)@.users.map_values(
                |u: UserV| upd_inc_food_count(u, food.user_id),
            )
            &&& final(store)@ == (StoreV {
                foods: final(store)@.foods,
                users: final(store)@.users,
                next_food_id: (old(store)@.next_food_id + 1) as i32,
                last_insert_id: old(store)@.next_food_id as u64,
                ..old(store)@
            })
        }),
        b64_decode(encode_utf8(food.image@)) is None ==> !r.success && r.data is None
            && r.message@ == "There was an error: "@ + "invalid payload"@
            && final(store)@ == old(store)@,
        (b64_decode(encode_utf8(food.image@)) is Some && old(store)@.next_food_id == i32::MAX)
            ==> !r.success && r.data is None && r.message@ == "There was an error: "@
            + "constraint violated"@ && final(store)@ == old(store)@,
{
    match store.insert_food(&food) {
        Ok(id) => {
            store.increment_user_food_count(food.user_id);
            success("food inserted successfully", id)
        },
        Err(err) => failure_with("There was an error: ", &err),
    }
}

/// `PATCH /users/{user_id}/picture`: replaces the profile picture; a
/// malformed base64 payload is rejected and nothing changes.
pub fn edit_profile_pic(store: &mut Store, path: i32, payload: PicturePayload) -> (r: ApiResponse<
    Option<()>,
>)
    requires
        old(store).wf(),
    ensures
        final(store).wf(),
        match payload.profile_image {
            None => r.success && r.message@ == "picture added"@ && final(store)@ == (StoreV {
                users: old(store)@.users.map_values(
                    |u: UserV| crate::store::upd_set_picture(u, path, None),
                ),
                ..old(store)@
            }),
            Some(s) => match b64_decode(encode_utf8(s@)) {
                Some(d) => r.success && r.message@ == "picture added"@ && final(store)@
                    == (StoreV {
                    users: old(store)@.users.map_values(
                        |u: UserV| crate::store::upd_set_picture(u, path, Some(d)),
                    ),
                    ..old(store)@
                }),
                None => !r.success && r.data is None && r.message@ == "There was an error: "@
                    + "invalid payload"@ && final(store)@ == old(store)@,
            },
        },
{
    let user_id = path;
    let profile_image = payload.profile_image;
    let user_pic = PictureDetails { user_id, profile_image };
    match store.edit_profile_picture(&user_pic) {
        Ok(_) => success("picture added", None),
        Err(err) => failure_with("There was an error: ", &err),
    }
}

/// `PATCH /donations`: edits a donation; a malformed base64 image is
/// rejected and nothing changes. Echoes the payload back on success.
pub fn edit_donation(store: &mut Store, food_edit_details: FoodDetail2) -> (r: ApiResponse<
    FoodDetail2,
>)
    requires
        old(store).wf(),
    ensures
        final(store).wf(),
        match b64_decode(encode_utf8(food_edit_details.image@)) {
            Some(d) => r.success && r.message@ == "successfull"@ && (r.data matches Some(echo)
                && echo == food_edit_details) && final(store)@ == (StoreV {
                foods: old(store)@.foods.map_values(
                    |f: FoodRowV| crate::store::upd_edit_food(f, food_edit_details, d),
                ),
                ..old(store)@
            }),
            None => !r.success && r.data is None && r.message@ == "there was an error: "@
                + "invalid payload"@ && final(store)@ == old(store)@,
        },
{
    match store.update_donation(&food_edit_details) {
        Ok(_) => success("successfull", food_edit_details),
        Err(err) => failure_with("there was an error: ", &err),
    }
}

/// How many active reservation rows a user id holds.
pub open spec fn active_reservation_count(s: StoreV, uid: i32) -> int {
    s.reservations.filter(
        |rv: ReservationV| rv.user_id == uid && rv.status == "active"@,
    ).len() as int
}

/// The reservation invariant: a user flagged as holding a reservation has
/// exactly one active reservation row, and an unflagged user has none.
pub open spec fn reserve_coherent(s: StoreV) -> bool {
    forall|i: int|
        0 <= i < s.users.len() ==> active_reservation_count(s, (#[trigger] s.users[i]).id) == (
        if s.users[i].has_reserve {
            1int
        } else {
            0int
        })
}

/// Filtering a mapped sequence counts the same rows as filtering the
/// underlying sequence with the pulled-back predicate.
pub proof fn lemma_filter_map_len<A, B>(
    s: Seq<A>,
    f: spec_fn(A) -> B,
    p: spec_fn(B) -> bool,
    q: spec_fn(A) -> bool,
)
    requires
        forall|k: int| 0 <= k < s.len() ==> p(f(#[trigger] s[k])) == q(s[k]),
    ensures
        s.map_values(f).filter(p).len() == s.filter(q).len(),
    decreases s.len(),
{
    reveal(Seq::filter);
    if s.len() > 0 {
        let d = s.drop_last();
        let x = s.last();
        assert(forall|k: int| 0 <= k < d.len() ==> p(f(#[trigger] d[k])) == q(d[k]));
        lemma_filter_map_len(d, f, p, q);
        assert(s =~= d.push(x));
        assert(s.map_values(f) =~= d.map_values(f).push(f(x)));
        crate::store::lemma_filter_push(d.map_values(f), f(x), p);
        crate::store::lemma_filter_push(d, x, q);
    }
}

/// The two reservation lifecycle states are distinct strings.
proof fn lemma_status_strings_differ()
    ensures
        "cancelled"@ != "active"@,
{
    broadcast use vstd::string::group_string_axioms;

    reveal_strlit("cancelled");
    reveal_strlit("active");
    assert("cancelled"@.len() == 9);
    assert("active"@.len() == 6);
}

/// Claiming a reservation keeps the reservation invariant: the claiming
/// user had none and gains exactly the new active row; nobody else's rows
/// or flag move.
proof fn lemma_coherent_after_make(old_s: StoreV, new_s: StoreV, uid: i32, rv: ReservationV)
    requires
        reserve_coherent(old_s),
        !user_has_reserve_flag(old_s, uid),
        rv.user_id == uid,
        rv.status == "active"@,
        new_s.users == old_s.users.map_values(|u: UserV| crate::store::upd_mark_reserve(u, uid)),
        new_s.reservations == old_s.reservations.push(rv),
    ensures
        reserve_coherent(new_s),
{
    assert forall|i: int| 0 <= i < new_s.users.len() implies active_reservation_count(
        new_s,
        (#[trigger] new_s.users[i]).id,
    ) == (if new_s.users[i].has_reserve {
        1int
    } else {
        0int
    }) by {
        let u_old = old_s.users[i];
        let u_new = new_s.users[i];
        assert(u_new == crate::store::upd_mark_reserve(u_old, uid));
        let vid = u_new.id;
        let p = |x: ReservationV| x.user_id == vid && x.status == "active"@;
        crate::store::lemma_filter_push(old_s.reservations, rv, p);
        assert(active_reservation_count(old_s, u_old.id) == (if u_old.has_reserve {
            1int
        } else {
            0int
        }));
        if u_old.id == uid {
            assert(!u_old.has_reserve);
            assert(p(rv));
            assert(active_reservation_count(new_s, vid) == active_reservation_count(old_s, vid)
                + 1);
        } else {
            assert(!p(rv));
            assert(active_reservation_count(new_s, vid) == active_reservation_count(old_s, vid));
        }
    }
}

/// Cancelling keeps the reservation invariant, provided no other user's
/// active reservation shares the food id being cancelled.
proof fn lemma_coherent_after_cancel(old_s: StoreV, new_s: StoreV, uid: i32, fid: i32)
    requires
        reserve_coherent(old_s),
        forall|k: int|
            0 <= k < old_s.reservations.len() && (#[trigger] old_s.reservations[k]).status
                == "active"@ && old_s.reservations[k].food_id == fid
                ==> old_s.reservations[k].user_id == uid,
        new_s.users == old_s.users.map_values(|u: UserV| crate::store::upd_clear_reserve(u, uid)),
        new_s.reservations == old_s.reservations.map_values(
            |x: ReservationV| crate::store::upd_cancel_reservation(x, uid, fid),
        ),
    ensures
        reserve_coherent(new_s),
{
    lemma_status_strings_differ();
    let cancel = |x: ReservationV| crate::store::upd_cancel_reservation(x, uid, fid);
    assert forall|i: int| 0 <= i < new_s.users.len() implies active_reservation_count(
        new_s,
        (#[trigger] new_s.users[i]).id,
    ) == (if new_s.users[i].has_reserve {
        1int
    } else {
        0int
    }) by {
        let u_old = old_s.users[i];
        let u_new = new_s.users[i];
        assert(u_new == crate::store::upd_clear_reserve(u_old, uid));
        let vid = u_new.id;
        let p = |x: ReservationV| x.user_id == vid && x.status == "active"@;
        assert(active_reservation_count(old_s, u_old.id) == (if u_old.has_reserve {
            1int
        } else {
            0int
        }));
        if vid == uid {
            assert forall|k: int| 0 <= k < old_s.reservations.len() implies !p(
                cancel(#[trigger] old_s.reservations[k]),
            ) by {
                let x = old_s.reservations[k];
                if x.user_id == uid || x.food_id == fid {
                    assert(cancel(x).status == "cancelled"@);
                }
            }
            lemma_filter_map_len(old_s.reservations, cancel, p, |x: ReservationV| false);
            old_s.reservations.lemma_all_neg_filter_empty(|x: ReservationV| false);
            assert(active_reservation_count(new_s, vid) == 0);
            assert(!u_new.has_reserve);
        } else {
            assert forall|k: int| 0 <= k < old_s.reservations.len() implies p(
                cancel(#[trigger] old_s.reservations[k]),
            ) == p(old_s.reservations[k]) by {
                let x = old_s.reservations[k];
                if x.user_id == uid || x.food_id == fid {
                    assert(cancel(x).status == "cancelled"@);
                    assert("cancelled"@ != "active"@) by {
                        reveal_strlit("cancelled");
                        reveal_strlit("active");
                    }
                    if x.food_id == fid && x.status == "active"@ {
                        assert(x.user_id == uid);
                    }
                    assert(!p(cancel(x)) && !p(x));
                }
            }
            lemma_filter_map_len(old_s.reservations, cancel, p, p);
            assert(active_reservation_count(new_s, vid) == active_reservation_count(old_s, vid));
            assert(u_new.has_reserve == u_old.has_reserve);
        }
    }
}

/// A prepared verification mail: where to send it and the code it carries.
pub struct MailJob {
    pub to: String,
    pub code: String,
}

/// A prepared farewell mail.
pub struct FarewellJob {
    pub to: String,
}

/// `POST /users/{user_id}/verify`: compares the submitted code with the
/// stored one; on a match the email flips to verified and the code is
/// cleared, on a mismatch the stored code stays untouched.
pub fn verify_code(store: &mut Store, path: i32, code: UserCodeDetails) -> (r: ApiResponse<
    Option<()>,
>)
    requires
        old(store).wf(),
    ensures
        final(store).wf(),
        match find_user_by_id(old(store)@.users, path) {
            None => !r.success && r.data is None && r.message@ == "there was err: "@
                + "no matching row"@ && final(store)@ == old(store)@,
            Some(u) => if u.code_pass == code.user_code@ {
                r.success && r.message@ == "email verified"@ && final(store)@ == (StoreV {
                    users: old(store)@.users.map_values(
                        |x: UserV| crate::store::upd_clear_code(
                            crate::store::upd_set_verified(x, code.user_email@),
                            code.user_email@,
                        ),
                    ),
                    ..old(store)@
                })
            } else {
                !r.success && r.message@ == "wrong code"@ && r.data is None && final(store)@
                    == old(store)@
            },
        },
{
    let details = UserCodeDetails {
        user_code: code.user_code.clone(),
        user_id: path,
        user_email: code.user_email.clone(),
    };
    match store.verify_user_code(&details) {
        Ok(exist) => {
            if exist {
                store.update_verified(&details.user_email);
                let ghost mid = store@;
                store.delete_verification_code(&details.user_email);
                proof {
                    let f1 = |x: UserV| crate::store::upd_set_verified(x, code.user_email@);
                    let f2 = |x: UserV| crate::store::upd_clear_code(x, code.user_email@);
                    let g = |x: UserV| crate::store::upd_clear_code(
                        crate::store::upd_set_verified(x, code.user_email@),
                        code.user_email@,
                    );
                    assert(mid.users.map_values(f2) =~= old(store)@.users.map_values(g));
                    assert(store@ =~= (StoreV {
                        users: old(store)@.users.map_values(g),
                        ..old(store)@
                    }));
                }
                success("email verified", None)
            } else {
                failure("wrong code")
            }
        },
        Err(err) => failure_with("there was err: ", &err),
    }
}

/// `POST /users/{user_id}/mail`: draws a fresh six-digit code, stores it on
/// the user's row, and hands back the mail to send. An unknown user yields
/// the failure envelope instead, with nothing stored.
pub fn send_verify_mail(store: &mut Store, path: i32) -> (r: Result<
    MailJob,
    ApiResponse<Option<()>>,
>)
    requires
        old(store).wf(),
    ensures
        final(store).wf(),
        match find_user_by_id(old(store)@.users, path) {
            Some(u) => r matches Ok(job) && job.to@ == u.email && is_verification_code(
                job.code@,
            ) && final(store)@ == (StoreV {
                users: old(store)@.users.map_values(
                    |x: UserV| crate::store::upd_set_code(x, path, job.code@),
                ),
                ..old(store)@
            }),
            None => (r matches Err(resp) && !resp.success && resp.data is None && resp.message@
                == "there was error verifying user email: "@ + "no matching row"@)
                && final(store)@ == old(store)@,
        },
{
    let code = generate_code();
    match store.get_user_email(&path) {
        Ok(user_mail) => {
            store.add_user_code(code.clone(), path);
            Ok(MailJob { to: user_mail, code })
        },
        Err(err) => Err(failure_with("there was error verifying user email: ", &err)),
    }
}

/// Maps the outcome of sending the verification mail to the endpoint's
/// envelope: the code stays stored either way.
pub fn mail_outcome_response(sent: bool) -> (r: ApiResponse<Option<()>>)
    ensures
        sent ==> r.success && r.message@ == "email sent successfully"@,
        !sent ==> !r.success && r.data is None,
{
    if sent {
        success("email sent successfully", None)
    } else {
        failure("there was an error qui: the mail could not be sent")
    }
}

/// `DELETE /users/{id}/profile`: deactivates the account (matching both id
/// and confirming email) and hands back the farewell mail to send. The
/// deactivation stands even if that send later fails.
pub fn delete_user(store: &mut Store, path: i32, user_details: &MajesticRes) -> (r: FarewellJob)
    requires
        old(store).wf(),
    ensures
        final(store).wf(),
        r.to@ == user_details.user_email@,
        final(store)@ == (StoreV {
            users: old(store)@.users.map_values(
                |u: UserV| crate::store::upd_deactivate(u, path, user_details.user_email@),
            ),
            ..old(store)@
        }),
{
    store.delete_user_account(path, &user_details.user_email);
    FarewellJob { to: user_details.user_email.clone() }
}

/// Maps the outcome of sending the farewell mail to the endpoint's
/// envelope.
pub fn farewell_outcome_response(sent: bool) -> (r: ApiResponse<Option<()>>)
    ensures
        sent ==> r.success && r.message@ == "user deleted successfully"@,
        !sent ==> !r.success && r.message@ == "couldn't send mail"@ && r.data is None,
{
    if sent {
        success("user deleted successfully", None)
    } else {
        failure("couldn't send mail")
    }
}

/// `PATCH /users/{id}/profile`: updates names and email; when the email
/// changed, the verified flag of every row carrying the new email is
/// cleared. Echoes the payload back on success.
pub fn edit_profile(store: &mut Store, path: i32, user_edit_details: EditUserDetails) -> (r:
    ApiResponse<EditUserDetails>)
    requires
        old(store).wf(),
    ensures
        final(store).wf(),
        match find_user_by_id(old(store)@.users, path) {
            None => !r.success && r.data is None && r.message@ == "there was an error: "@
                + "no matching row"@ && final(store)@ == old(store)@,
            Some(u) => ({
                &&& r.success
                &&& r.message@ == "successful"@
                &&& (r.data matches Some(echo) && echo == user_edit_details)
                &&& final(store)@ == (if u.email == user_edit_details.email@ {
                    (StoreV {
                        users: old(store)@.users.map_values(
                            |x: UserV| crate::store::upd_edit_profile(
                                x,
                                path,
                                user_edit_details.first_name@,
                                user_edit_details.last_name@,
                                user_edit_details.email@,
                            ),
                        ),
                        ..old(store)@
                    })
                } else {
                    (StoreV {
                        users: old(store)@.users.map_values(
                            |x: UserV| crate::store::upd_unverify(
                                crate::store::upd_edit_profile(
                                    x,
                                    path,
                                    user_edit_details.first_name@,
                                    user_edit_details.last_name@,
                                    user_edit_details.email@,
                                ),
                                user_edit_details.email@,
                            ),
                        ),
                        ..old(store)@
                    })
                })
            }),
        },
{
    let user_id = path;
    let user_edit = EditUserDetails {
        user_id: user_id,
        first_name: user_edit_details.first_name.clone(),
        last_name: user_edit_details.last_name.clone(),
        email: user_edit_details.email.clone(),
    };
    match store.get_email(&user_id, &user_edit.email) {
        Ok(is_same) => {
            store.edit_user_profile(&user_edit);
            let ghost mid = store@;
            if !is_same {
                store.change_email_verified(&user_edit_details.email);
                proof {
                    let f1 = |x: UserV| crate::store::upd_edit_profile(
                        x,
                        path,
                        user_edit_details.first_name@,
                        user_edit_details.last_name@,
                        user_edit_details.email@,
                    );
                    let g = |x: UserV| crate::store::upd_unverify(
                        crate::store::upd_edit_profile(
                            x,
                            path,
                            user_edit_details.first_name@,
                            user_edit_details.last_name@,
                            user_edit_details.email@,
                        ),
                        user_edit_details.email@,
                    );
                    assert(mid.users.map_values(
                        |x: UserV| crate::store::upd_unverify(x, user_edit_details.email@),
                    ) =~= old(store)@.users.map_values(g));
                    assert(store@ =~= (StoreV {
                        users: old(store)@.users.map_values(g),
                        ..old(store)@
                    }));
                }
                success("successful", user_edit_details)
            } else {
                success("successful", user_edit_details)
            }
        },
        Err(err) => failure_with("there was an error: ", &err),
    }
}

/// `POST /users/{id}/reserve`: rejected outright when the user already
/// holds a reservation; otherwise inserts the reservation row, flags the
/// user, and returns the new row. Keeps the reservation invariant whenever
/// the payload names the same user as the path.
pub fn make_user_reserve(store: &mut Store, path: i32, reserve_details: ReserveDetails) -> (r:
    ApiResponse<ReservationDetails>)
    requires
        old(store).wf(),
    ensures
        final(store).wf(),
        user_has_reserve_flag(old(store)@, path) ==> (!r.success && r.message@
            == "already has a reservation"@ && r.data is None) && final(store)@ == old(store)@,
        (!user_has_reserve_flag(old(store)@, path) && old(store)@.next_reservation_id < i32::MAX)
            ==> ({
            &&& r.success
            &&& r.message@ == "successfull"@
            &&& (r.data matches Some(d) && d@ == (crate::records::ReservationDetailsV {
                id: old(store)@.next_reservation_id,
                user_id: reserve_details.user_id,
                food_id: reserve_details.food_id,
                reserved_at: Some(old(store)@.now),
                status: Some("active"@),
            }))
            &&& final(store)@ == (StoreV {
                reservations: old(store)@.reservations.push(
                    crate::store::ReservationV {
                        id: old(store)@.next_reservation_id,
                        user_id: reserve_details.user_id,
                        food_id: reserve_details.food_id,
                        reserved_at: old(store)@.now,
                        status: "active"@,
                    },
                ),
                users: old(store)@.users.map_values(
                    |u: UserV| crate::store::upd_mark_reserve(u, path),
                ),
                next_reservation_id: (old(store)@.next_reservation_id + 1) as i32,
                last_insert_id: old(store)@.next_reservation_id as u64,
                ..old(store)@
            })
        }),
        (!user_has_reserve_flag(old(store)@, path) && old(store)@.next_reservation_id == i32::MAX)
            ==> !r.success && r.message@ == "error making reserve: "@ + "constraint violated"@
            && final(store)@ == old(store)@,
        (reserve_coherent(old(store)@) && reserve_details.user_id == path) ==> reserve_coherent(
            final(store)@,
        ),
{
    if store.check_if_user_has_reserve(path) {
        return failure("already has a reservation");
    }
    match store.make_reserve(reserve_details) {
        Ok(_) => {
            let ghost mid = store@;
            let ghost rv = mid.reservations.last();
            let id = store.mark_user_reserve(path);
            proof {
                assert(store@.reservations == old(store)@.reservations.push(rv));
                assert forall|k: int| 0 <= k < old(store)@.reservations.len() implies !((
                #[trigger] store@.reservations[k]).id as u64 == id) by {
                    assert(store@.reservations[k] == old(store)@.reservations[k]);
                    assert(1 <= old(store)@.reservations[k].id < old(store)@.next_reservation_id);
                }
                crate::store::lemma_find_first_found(
                    store@.reservations,
                    |x: ReservationV| x.id as u64 == id,
                    old(store)@.reservations.len() as int,
                );
            }
            match store.get_reservation_details(id) {
                Ok(reservation) => {
                    proof {
                        if reserve_coherent(old(store)@) && reserve_details.user_id == path {
                            lemma_coherent_after_make(old(store)@, store@, path, rv);
                        }
                    }
                    success("successfull", reservation)
                },
                Err(err) => failure_with("there was an error getting reservation ", &err),
            }
        },
        Err(err) => failure_with("error making reserve: ", &err),
    }
}

/// `DELETE /users/{id}/reserve`: cancels by the stored rule (every
/// reservation matching the user id or the food id) and clears the user's
/// flag. Afterwards the user has no active reservation row; the invariant
/// as a whole survives when no other user's active reservation shares the
/// cancelled food id.
pub fn cancel_reserve(store: &mut Store, path: i32, reserve_details: ReserveDetails) -> (r:
    ApiResponse<Option<()>>)
    requires
        old(store).wf(),
    ensures
        final(store).wf(),
        r.success,
        r.message@ == "reservation cancelled"@,
        final(store)@ == (StoreV {
            reservations: old(store)@.reservations.map_values(
                |x: ReservationV| crate::store::upd_cancel_reservation(
                    x,
                    path,
                    reserve_details.food_id,
                ),
            ),
            users: old(store)@.users.map_values(
                |u: UserV| crate::store::upd_clear_reserve(u, path),
            ),
            ..old(store)@
        }),
        active_reservation_count(final(store)@, path) == 0,
        forall|j: int|
            0 <= j < final(store)@.users.len() && (#[trigger] final(store)@.users[j]).id == path
                ==> !final(store)@.users[j].has_reserve,
        (reserve_coherent(old(store)@) && (forall|k: int|
            0 <= k < old(store)@.reservations.len() && (
            #[trigger] old(store)@.reservations[k]).status == "active"@
                && old(store)@.reservations[k].food_id == reserve_details.food_id ==> old(
                store,
            )@.reservations[k].user_id == path)) ==> reserve_coherent(final(store)@),
{
    let user_id = path;
    let reserve = ReserveDetails { food_id: reserve_details.food_id, user_id };
    store.edit_reservation(reserve);
    proof {
        let cancel = |x: ReservationV| crate::store::upd_cancel_reservation(
            x,
            path,
            reserve_details.food_id,
        );
        let p = |x: ReservationV| x.user_id == path && x.status == "active"@;
        lemma_status_strings_differ();
        assert forall|k: int| 0 <= k < old(store)@.reservations.len() implies !p(
            cancel(#[trigger] old(store)@.reservations[k]),
        ) by {
            let x = old(store)@.reservations[k];
            if x.user_id == path || x.food_id == reserve_details.food_id {
                assert(cancel(x).status == "cancelled"@);
            }
        }
        lemma_filter_map_len(
            old(store)@.reservations,
            cancel,
            p,
            |x: ReservationV| false,
        );
        old(store)@.reservations.lemma_all_neg_filter_empty(|x: ReservationV| false);
        assert(active_reservation_count(store@, path) == 0);
        if reserve_coherent(old(store)@) && (forall|k: int|
            0 <= k < old(store)@.reservations.len() && (
            #[trigger] old(store)@.reservations[k]).status == "active"@
                && old(store)@.reservations[k].food_id == reserve_details.food_id ==> old(
                store,
            )@.reservations[k].user_id == path) {
            lemma_coherent_after_cancel(old(store)@, store@, path, reserve_details.food_id);
        }
    }
    success("reservation cancelled", None)
}


} // verus!

