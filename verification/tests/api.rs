use avanzo::handlers::add_food;
use avanzo::handlers::add_user;
use avanzo::handlers::cancel_reserve;
use avanzo::handlers::delete_food_handler;
use avanzo::handlers::delete_user;
use avanzo::handlers::edit_donation;
use avanzo::handlers::edit_profile;
use avanzo::handlers::edit_profile_pic;
use avanzo::handlers::farewell_outcome_response;
use avanzo::handlers::get_donations;
use avanzo::handlers::get_food_list;
use avanzo::handlers::get_food_profile_details;
use avanzo::handlers::get_reserves;
use avanzo::handlers::get_user_active_donations;
use avanzo::handlers::get_user_active_reserve;
use avanzo::handlers::get_user_profile_details;
use avanzo::handlers::login_user_handler;
use avanzo::handlers::mail_outcome_response;
use avanzo::handlers::make_user_reserve;
use avanzo::handlers::send_verify_mail;
use avanzo::handlers::verify_code;
use avanzo::handlers::FoodId;
use avanzo::records::EditUserDetails;
use avanzo::records::FoodDetail;
use avanzo::records::FoodDetail2;
use avanzo::records::LoginDetail;
use avanzo::records::MajesticRes;
use avanzo::records::NewUserDetails;
use avanzo::records::PicturePayload;
use avanzo::records::ReserveDetails;
use avanzo::records::UserCodeDetails;
use avanzo::store::Store;

fn registration(email: &str, password: &str) -> NewUserDetails {
    NewUserDetails {
        email: email.to_string(),
        password_hash: password.to_string(),
        first_name: Some("Ada".to_string()),
        last_name: Some("Lovelace".to_string()),
        num_of_food_added: Some("0".to_string()),
        num_of_food_taken: None,
        email_verified: None,
    }
}

fn donation(user_id: i32, image_b64: &str) -> FoodDetail {
    FoodDetail {
        title: "bread".to_string(),
        description: "day-old loaf".to_string(),
        is_free: true,
        pickup_time: "18:00".to_string(),
        pickup_address: "1 Main St".to_string(),
        user_id,
        image: image_b64.to_string(),
    }
}

#[test]
fn duplicate_email_is_rejected_and_no_second_row_is_created() {
    let mut store = Store::new();
    let first = add_user(&mut store, registration("a@x.com", "pw"));
    assert!(first.success);
    let users_before = store.users.len();
    let second = add_user(&mut store, registration("a@x.com", "other"));
    assert!(!second.success);
    assert_eq!(second.message, "email already exists");
    assert_eq!(store.users.len(), users_before);
}

#[test]
fn deactivated_email_can_register_again() {
    let mut store = Store::new();
    let first = add_user(&mut store, registration("a@x.com", "pw"));
    let id = first.data.unwrap();
    let _job = delete_user(
        &mut store,
        id,
        &MajesticRes { user_email: "a@x.com".to_string() },
    );
    let again = add_user(&mut store, registration("a@x.com", "pw2"));
    assert!(again.success);
    assert_eq!(store.users.len(), 2);
}

#[test]
fn unknown_email_and_wrong_password_are_indistinguishable() {
    let mut store = Store::new();
    add_user(&mut store, registration("a@x.com", "pw"));
    let unknown = login_user_handler(
        &store,
        LoginDetail { email: "b@x.com".to_string(), password_hash: "pw".to_string() },
    );
    let wrong = login_user_handler(
        &store,
        LoginDetail { email: "a@x.com".to_string(), password_hash: "nope".to_string() },
    );
    assert!(!unknown.success);
    assert!(!wrong.success);
    assert_eq!(unknown.message, wrong.message);
    assert_eq!(unknown.message, "incorrect password");
    assert!(unknown.data.is_none());
    assert!(wrong.data.is_none());
}

#[test]
fn correct_password_logs_in() {
    let mut store = Store::new();
    add_user(&mut store, registration("a@x.com", "pw"));
    let r = login_user_handler(
        &store,
        LoginDetail { email: "a@x.com".to_string(), password_hash: "pw".to_string() },
    );
    assert!(r.success);
    assert_eq!(r.message, "login successfully");
    let d = r.data.unwrap();
    assert_eq!(d.email, Some("a@x.com".to_string()));
}

#[test]
fn food_list_is_idempotent_without_writes() {
    let mut store = Store::new();
    add_user(&mut store, registration("a@x.com", "pw"));
    add_food(&mut store, donation(1, "aGVsbG8="));
    add_food(&mut store, donation(1, "d29ybGQ="));
    let first = get_food_list(&store);
    let second = get_food_list(&store);
    let a = first.data.unwrap();
    let b = second.data.unwrap();
    assert_eq!(a.len(), b.len());
    for (x, y) in a.iter().zip(b.iter()) {
        assert_eq!(x.id, y.id);
        assert_eq!(x.title, y.title);
        assert_eq!(x.description, y.description);
        assert_eq!(x.is_free, y.is_free);
        assert_eq!(x.image, y.image);
        assert_eq!(x.status, y.status);
    }
}

#[test]
fn image_round_trips_through_create_and_fetch() {
    let mut store = Store::new();
    add_user(&mut store, registration("a@x.com", "pw"));
    let created = add_food(&mut store, donation(1, "aGVsbG8="));
    assert!(created.success);
    let food_id = created.data.unwrap() as i32;
    let fetched = get_food_profile_details(&store, food_id);
    assert!(fetched.success);
    let food = fetched.data.unwrap();
    let image = food.image.unwrap();
    assert_eq!(image, "aGVsbG8=");
    assert_eq!(avanzo::codec::base64_decode(&image.into_bytes()), Some(b"hello".to_vec()));
}

#[test]
fn malformed_image_is_rejected_before_any_row() {
    let mut store = Store::new();
    add_user(&mut store, registration("a@x.com", "pw"));
    let r = add_food(&mut store, donation(1, "not base64!"));
    assert!(!r.success);
    assert_eq!(r.message, "There was an error: invalid payload");
    assert_eq!(store.foods.len(), 0);
}

#[test]
fn create_user_scenario_returns_id_then_conflicts() {
    let mut store = Store::new();
    let first = add_user(
        &mut store,
        NewUserDetails {
            email: "a@x.com".to_string(),
            password_hash: "pw".to_string(),
            first_name: None,
            last_name: None,
            num_of_food_added: None,
            num_of_food_taken: None,
            email_verified: None,
        },
    );
    assert!(first.success);
    assert_eq!(first.data, Some(1));
    let second = add_user(
        &mut store,
        NewUserDetails {
            email: "a@x.com".to_string(),
            password_hash: "pw".to_string(),
            first_name: None,
            last_name: None,
            num_of_food_added: None,
            num_of_food_taken: None,
            email_verified: None,
        },
    );
    assert!(!second.success);
    assert_eq!(second.message, "email already exists");
    assert!(second.data.is_none());
}

#[test]
fn reserving_twice_is_rejected_without_a_new_row() {
    let mut store = Store::new();
    add_user(&mut store, registration("a@x.com", "pw"));
    add_food(&mut store, donation(1, "aGVsbG8="));
    let first = make_user_reserve(&mut store, 1, ReserveDetails { user_id: 1, food_id: 1 });
    assert!(first.success);
    let rows_before = store.reservations.len();
    let second = make_user_reserve(&mut store, 1, ReserveDetails { user_id: 1, food_id: 1 });
    assert!(!second.success);
    assert_eq!(second.message, "already has a reservation");
    assert_eq!(store.reservations.len(), rows_before);
}

#[test]
fn reservation_lifecycle_keeps_flag_and_rows_in_step() {
    let mut store = Store::new();
    add_user(&mut store, registration("a@x.com", "pw"));
    add_food(&mut store, donation(1, "aGVsbG8="));
    let made = make_user_reserve(&mut store, 1, ReserveDetails { user_id: 1, food_id: 1 });
    assert!(made.success);
    let details = made.data.unwrap();
    assert_eq!(details.user_id, 1);
    assert_eq!(details.food_id, 1);
    assert_eq!(details.status, Some("active".to_string()));
    assert!(store.check_if_user_has_reserve(1));
    let active = get_user_active_reserve(&store, 1);
    assert!(active.success);
    assert_eq!(active.data.unwrap().food_id, 1);
    let active_rows = store
        .reservations
        .iter()
        .filter(|r| r.user_id == 1 && r.status == "active")
        .count();
    assert_eq!(active_rows, 1);
    let cancelled = cancel_reserve(&mut store, 1, ReserveDetails { user_id: 1, food_id: 1 });
    assert!(cancelled.success);
    assert_eq!(cancelled.message, "reservation cancelled");
    assert!(!store.check_if_user_has_reserve(1));
    let active_rows_after = store
        .reservations
        .iter()
        .filter(|r| r.user_id == 1 && r.status == "active")
        .count();
    assert_eq!(active_rows_after, 0);
    let gone = get_user_active_reserve(&store, 1);
    assert!(!gone.success);
}

#[test]
fn verification_flow_stores_checks_and_clears_the_code() {
    let mut store = Store::new();
    add_user(&mut store, registration("a@x.com", "pw"));
    let job = send_verify_mail(&mut store, 1).ok().unwrap();
    assert_eq!(job.to, "a@x.com");
    assert_eq!(job.code.len(), 6);
    assert!(job.code.chars().all(|c| c.is_ascii_digit()));
    let wrong = verify_code(
        &mut store,
        1,
        UserCodeDetails {
            user_code: "000000".to_string(),
            user_id: 1,
            user_email: "a@x.com".to_string(),
        },
    );
    assert!(!wrong.success);
    assert_eq!(wrong.message, "wrong code");
    assert_eq!(store.users[0].code_pass, job.code);
    let right = verify_code(
        &mut store,
        1,
        UserCodeDetails {
            user_code: job.code.clone(),
            user_id: 1,
            user_email: "a@x.com".to_string(),
        },
    );
    assert!(right.success);
    assert_eq!(right.message, "email verified");
    assert!(store.users[0].email_verified);
    assert_eq!(store.users[0].code_pass, "");
    let profile = get_user_profile_details(&store, 1);
    assert_eq!(profile.data.unwrap().email_verified, Some(1));
}

#[test]
fn mail_outcomes_map_to_the_right_envelopes() {
    let ok = mail_outcome_response(true);
    assert!(ok.success);
    assert_eq!(ok.message, "email sent successfully");
    let bad = mail_outcome_response(false);
    assert!(!bad.success);
    let farewell_ok = farewell_outcome_response(true);
    assert_eq!(farewell_ok.message, "user deleted successfully");
    let farewell_bad = farewell_outcome_response(false);
    assert_eq!(farewell_bad.message, "couldn't send mail");
}

#[test]
fn deleting_a_food_removes_only_that_row() {
    let mut store = Store::new();
    add_user(&mut store, registration("a@x.com", "pw"));
    add_food(&mut store, donation(1, "aGVsbG8="));
    add_food(&mut store, donation(1, "d29ybGQ="));
    let r = delete_food_handler(&mut store, FoodId { food_id: 1 });
    assert!(r.success);
    assert_eq!(r.message, "Food deleted");
    assert_eq!(store.foods.len(), 1);
    assert_eq!(store.foods[0].id, 2);
}

#[test]
fn editing_a_donation_rewrites_its_columns() {
    let mut store = Store::new();
    add_user(&mut store, registration("a@x.com", "pw"));
    add_food(&mut store, donation(1, "aGVsbG8="));
    let r = edit_donation(
        &mut store,
        FoodDetail2 {
            title: "soup".to_string(),
            description: "fresh".to_string(),
            is_free: false,
            pickup_time: "19:00".to_string(),
            pickup_address: "2 Side St".to_string(),
            food_id: 1,
            image: "d29ybGQ=".to_string(),
        },
    );
    assert!(r.success);
    let fetched = get_food_profile_details(&store, 1).data.unwrap();
    assert_eq!(fetched.title, Some("soup".to_string()));
    assert_eq!(fetched.is_free, Some(0));
    assert_eq!(fetched.image, Some("d29ybGQ=".to_string()));
}

#[test]
fn donation_listings_filter_by_owner_and_status() {
    let mut store = Store::new();
    add_user(&mut store, registration("a@x.com", "pw"));
    add_user(&mut store, registration("b@x.com", "pw"));
    add_food(&mut store, donation(1, "aGVsbG8="));
    add_food(&mut store, donation(2, "d29ybGQ="));
    let mine = get_donations(&store, 1).data.unwrap();
    assert_eq!(mine.len(), 1);
    assert_eq!(mine[0].user_id, Some(1));
    let active = get_user_active_donations(&store, 1).data.unwrap();
    assert_eq!(active.len(), 1);
    let joined = get_reserves(&store, 1).data.unwrap();
    assert_eq!(joined.len(), 0);
}

#[test]
fn adding_food_increments_the_owner_counter() {
    let mut store = Store::new();
    add_user(&mut store, registration("a@x.com", "pw"));
    add_food(&mut store, donation(1, "aGVsbG8="));
    add_food(&mut store, donation(1, "d29ybGQ="));
    let profile = get_user_profile_details(&store, 1).data.unwrap();
    assert_eq!(profile.num_of_food_added, Some(2));
}

#[test]
fn profile_edit_with_new_email_clears_the_verified_flag() {
    let mut store = Store::new();
    add_user(&mut store, registration("a@x.com", "pw"));
    let job = send_verify_mail(&mut store, 1).ok().unwrap();
    verify_code(
        &mut store,
        1,
        UserCodeDetails {
            user_code: job.code,
            user_id: 1,
            user_email: "a@x.com".to_string(),
        },
    );
    assert!(store.users[0].email_verified);
    let r = edit_profile(
        &mut store,
        1,
        EditUserDetails {
            user_id: 1,
            first_name: "Grace".to_string(),
            last_name: "Hopper".to_string(),
            email: "g@x.com".to_string(),
        },
    );
    assert!(r.success);
    assert_eq!(store.users[0].email, "g@x.com");
    assert!(!store.users[0].email_verified);
    assert_eq!(store.users[0].first_name, Some("Grace".to_string()));
}

#[test]
fn profile_edit_with_same_email_keeps_the_verified_flag() {
    let mut store = Store::new();
    add_user(&mut store, registration("a@x.com", "pw"));
    let job = send_verify_mail(&mut store, 1).ok().unwrap();
    verify_code(
        &mut store,
        1,
        UserCodeDetails {
            user_code: job.code,
            user_id: 1,
            user_email: "a@x.com".to_string(),
        },
    );
    let r = edit_profile(
        &mut store,
        1,
        EditUserDetails {
            user_id: 1,
            first_name: "Grace".to_string(),
            last_name: "Hopper".to_string(),
            email: "a@x.com".to_string(),
        },
    );
    assert!(r.success);
    assert!(store.users[0].email_verified);
}

#[test]
fn profile_picture_updates_and_round_trips() {
    let mut store = Store::new();
    add_user(&mut store, registration("a@x.com", "pw"));
    let r = edit_profile_pic(
        &mut store,
        1,
        PicturePayload { profile_image: Some("aGVsbG8=".to_string()) },
    );
    assert!(r.success);
    let profile = get_user_profile_details(&store, 1).data.unwrap();
    assert_eq!(profile.profile_image, Some("aGVsbG8=".to_string()));
    let bad = edit_profile_pic(
        &mut store,
        1,
        PicturePayload { profile_image: Some("???".to_string()) },
    );
    assert!(!bad.success);
}

#[test]
fn missing_rows_surface_as_failures() {
    let store = Store::new();
    let profile = get_user_profile_details(&store, 9);
    assert!(!profile.success);
    assert_eq!(profile.message, "There was an error getting user details: no matching row");
    let food = get_food_profile_details(&store, 9);
    assert!(!food.success);
    let reserve = get_user_active_reserve(&store, 9);
    assert!(!reserve.success);
}

#[test]
fn exhausted_id_space_surfaces_as_a_conflict() {
    let mut store = Store::new();
    store.next_food_id = i32::MAX;
    let r = store.insert_food(&donation(1, "aGVsbG8="));
    assert!(matches!(r, Err(avanzo::records::DataError::Conflict)));
}

#[test]
fn deactivation_prepares_the_farewell_mail_and_sticks() {
    let mut store = Store::new();
    add_user(&mut store, registration("a@x.com", "pw"));
    let job = delete_user(
        &mut store,
        1,
        &MajesticRes { user_email: "a@x.com".to_string() },
    );
    assert_eq!(job.to, "a@x.com");
    assert!(!store.users[0].is_active);
    let r = login_user_handler(
        &store,
        LoginDetail { email: "a@x.com".to_string(), password_hash: "pw".to_string() },
    );
    assert!(!r.success);
}

#[test]
fn counters_are_coerced_from_their_decimal_spellings() {
    let mut store = Store::new();
    add_user(
        &mut store,
        NewUserDetails {
            email: "a@x.com".to_string(),
            password_hash: "pw".to_string(),
            first_name: None,
            last_name: None,
            num_of_food_added: Some("7".to_string()),
            num_of_food_taken: Some("junk".to_string()),
            email_verified: None,
        },
    );
    let profile = get_user_profile_details(&store, 1).data.unwrap();
    assert_eq!(profile.num_of_food_added, Some(7));
    assert_eq!(profile.num_of_food_taken, Some(0));
}

#[test]
fn reservation_listing_joins_user_and_food_rows() {
    let mut store = Store::new();
    add_user(&mut store, registration("a@x.com", "pw"));
    add_food(&mut store, donation(1, "aGVsbG8="));
    make_user_reserve(&mut store, 1, ReserveDetails { user_id: 1, food_id: 1 });
    let joined = get_reserves(&store, 1).data.unwrap();
    assert_eq!(joined.len(), 1);
    assert_eq!(joined[0].food_id, 1);
    assert_eq!(joined[0].title, Some("bread".to_string()));
    assert_eq!(joined[0].first_name, Some("Ada".to_string()));
    assert_eq!(joined[0].image, Some("aGVsbG8=".to_string()));
}

#[test]
fn cancel_by_food_id_also_cancels_another_users_reservation() {
    let mut store = Store::new();
    add_user(&mut store, registration("a@x.com", "pw"));
    add_user(&mut store, registration("b@x.com", "pw"));
    add_food(&mut store, donation(1, "aGVsbG8="));
    assert!(make_user_reserve(&mut store, 2, ReserveDetails { user_id: 2, food_id: 1 }).success);
    cancel_reserve(&mut store, 1, ReserveDetails { user_id: 1, food_id: 1 });
    // the stored rule matches on user id OR food id, so user 2's row is
    // cancelled while their flag stays set
    assert_eq!(store.reservations[0].status, "cancelled");
    assert!(store.check_if_user_has_reserve(2));
}
