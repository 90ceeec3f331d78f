//! Wire-level record types: the payloads the HTTP layer decodes into and the
//! rows the read operations hand back, together with the uniform response
//! envelope and the data-access error taxonomy.

use vstd::prelude::*;
use vstd::string::StringExecFns;

verus! {

/// Payload for creating a food (donation) item. The image travels
/// base64-encoded.
pub struct FoodDetail {
    pub title: String,
    pub description: String,
    pub is_free: bool,
    pub pickup_time: String,
    pub pickup_address: String,
    pub user_id: i32,
    pub image: String,
}

/// Payload for editing an existing food item, addressed by its id.
pub struct FoodDetail2 {
    pub title: String,
    pub description: String,
    pub is_free: bool,
    pub pickup_time: String,
    pub pickup_address: String,
    pub food_id: i32,
    pub image: String,
}

/// A food row as fetched: every column optional, the image re-encoded to
/// base64.
pub struct Food {
    pub id: Option<i32>,
    pub title: Option<String>,
    pub description: Option<String>,
    pub is_free: Option<i8>,
    pub pickup_time: Option<String>,
    pub pickup_address: Option<String>,
    pub user_id: Option<i32>,
    pub image: Option<String>,
    pub status: Option<String>,
}

/// One row of the reservation listing: reservation joined with its food item
/// and the reserving user.
pub struct AllReserves {
    pub food_id: i32,
    pub title: Option<String>,
    pub description: Option<String>,
    pub first_name: Option<String>,
    pub image: Option<String>,
}

/// The single active reservation of a user, joined with food and user data.
pub struct ActiveReserve {
    pub food_id: i32,
    pub title: Option<String>,
    pub description: Option<String>,
    pub first_name: Option<String>,
    pub image: Option<String>,
    pub pickup_time: Option<String>,
    pub pickup_address: Option<String>,
}

/// Identifier of a freshly created user.
pub struct NewUserId {
    pub id: Option<i32>,
}

/// Registration payload. `password_hash` carries the plaintext password on
/// the wire; it is hashed before storage. The two counters arrive as
/// optional decimal strings and are coerced to integers on insert.
pub struct NewUserDetails {
    pub email: String,
    pub password_hash: String,
    pub first_name: Option<String>,
    pub last_name: Option<String>,
    pub num_of_food_added: Option<String>,
    pub num_of_food_taken: Option<String>,
    pub email_verified: Option<i8>,
}

/// Login payload: email plus the plaintext password.
pub struct LoginDetail {
    pub email: String,
    pub password_hash: String,
}

/// A user row as fetched for login, stored password hash included.
pub struct UserDetails {
    pub id: Option<i32>,
    pub email: Option<String>,
    pub first_name: Option<String>,
    pub last_name: Option<String>,
    pub num_of_food_added: Option<i32>,
    pub num_of_food_taken: Option<i32>,
    pub profile_image: Option<String>,
    pub email_verified: Option<i8>,
    pub password_hash: String,
}

/// A user row as fetched for the profile view, without the password hash.
pub struct GetUserDetails {
    pub id: Option<i32>,
    pub email: Option<String>,
    pub first_name: Option<String>,
    pub last_name: Option<String>,
    pub num_of_food_added: Option<i32>,
    pub num_of_food_taken: Option<i32>,
    pub profile_image: Option<String>,
    pub email_verified: Option<i8>,
}

/// A profile-picture update, addressed to a user.
pub struct PictureDetails {
    pub user_id: i32,
    pub profile_image: Option<String>,
}

/// The body of a profile-picture update request.
pub struct PicturePayload {
    pub profile_image: Option<String>,
}

/// A submitted verification code, with the user it belongs to.
pub struct UserCodeDetails {
    pub user_code: String,
    pub user_id: i32,
    pub user_email: String,
}

/// Profile-edit payload.
pub struct EditUserDetails {
    pub user_id: i32,
    pub first_name: String,
    pub last_name: String,
    pub email: String,
}

/// A reservation request: which user claims which food item.
pub struct ReserveDetails {
    pub user_id: i32,
    pub food_id: i32,
}

/// A reservation row as fetched.
pub struct ReservationDetails {
    pub id: i32,
    pub user_id: i32,
    pub food_id: i32,
    pub reserved_at: Option<String>,
    pub status: Option<String>,
}

/// The deep view of a vector is as long as the vector.
pub broadcast proof fn lemma_deep_view_len<T: DeepView>(v: Vec<T>)
    ensures
        #[trigger] v.deep_view().len() == v@.len(),
{
}

/// The deep view of a vector is the element-wise view.
pub broadcast proof fn lemma_deep_view_index<T: DeepView>(v: Vec<T>, i: int)
    requires
        0 <= i < v@.len(),
    ensures
        #[trigger] v.deep_view()[i] == v@[i].deep_view(),
{
}

/// The view of an optional string: its characters, if present.
pub open spec fn view_opt_string(o: Option<String>) -> Option<Seq<char>> {
    match o {
        Some(s) => Some(s@),
        None => None,
    }
}

/// Spec-level image of a [`Food`] row.
#[verifier::ext_equal]
pub struct FoodV {
    pub id: Option<i32>,
    pub title: Option<Seq<char>>,
    pub description: Option<Seq<char>>,
    pub is_free: Option<i8>,
    pub pickup_time: Option<Seq<char>>,
    pub pickup_address: Option<Seq<char>>,
    pub user_id: Option<i32>,
    pub image: Option<Seq<char>>,
    pub status: Option<Seq<char>>,
}

impl View for Food {
    type V = FoodV;

    open spec fn view(&self) -> FoodV {
        FoodV {
            id: self.id,
            title: view_opt_string(self.title),
            description: view_opt_string(self.description),
            is_free: self.is_free,
            pickup_time: view_opt_string(self.pickup_time),
            pickup_address: view_opt_string(self.pickup_address),
            user_id: self.user_id,
            image: view_opt_string(self.image),
            status: view_opt_string(self.status),
        }
    }
}

impl DeepView for Food {
    type V = FoodV;

    open spec fn deep_view(&self) -> FoodV {
        self.view()
    }
}

/// Spec-level image of an [`AllReserves`] row.
#[verifier::ext_equal]
pub struct AllReservesV {
    pub food_id: i32,
    pub title: Option<Seq<char>>,
    pub description: Option<Seq<char>>,
    pub first_name: Option<Seq<char>>,
    pub image: Option<Seq<char>>,
}

impl View for AllReserves {
    type V = AllReservesV;

    open spec fn view(&self) -> AllReservesV {
        AllReservesV {
            food_id: self.food_id,
            title: view_opt_string(self.title),
            description: view_opt_string(self.description),
            first_name: view_opt_string(self.first_name),
            image: view_opt_string(self.image),
        }
    }
}

impl DeepView for AllReserves {
    type V = AllReservesV;

    open spec fn deep_view(&self) -> AllReservesV {
        self.view()
    }
}

/// Spec-level image of an [`ActiveReserve`] row.
#[verifier::ext_equal]
pub struct ActiveReserveV {
    pub food_id: i32,
    pub title: Option<Seq<char>>,
    pub description: Option<Seq<char>>,
    pub first_name: Option<Seq<char>>,
    pub image: Option<Seq<char>>,
    pub pickup_time: Option<Seq<char>>,
    pub pickup_address: Option<Seq<char>>,
}

impl View for ActiveReserve {
    type V = ActiveReserveV;

    open spec fn view(&self) -> ActiveReserveV {
        ActiveReserveV {
            food_id: self.food_id,
            title: view_opt_string(self.title),
            description: view_opt_string(self.description),
            first_name: view_opt_string(self.first_name),
            image: view_opt_string(self.image),
            pickup_time: view_opt_string(self.pickup_time),
            pickup_address: view_opt_string(self.pickup_address),
        }
    }
}

/// Spec-level image of a [`ReservationDetails`] row.
#[verifier::ext_equal]
pub struct ReservationDetailsV {
    pub id: i32,
    pub user_id: i32,
    pub food_id: i32,
    pub reserved_at: Option<Seq<char>>,
    pub status: Option<Seq<char>>,
}

impl View for ReservationDetails {
    type V = ReservationDetailsV;

    open spec fn view(&self) -> ReservationDetailsV {
        ReservationDetailsV {
            id: self.id,
            user_id: self.user_id,
            food_id: self.food_id,
            reserved_at: view_opt_string(self.reserved_at),
            status: view_opt_string(self.status),
        }
    }
}

/// Spec-level image of a [`UserDetails`] row.
#[verifier::ext_equal]
pub struct UserDetailsV {
    pub id: Option<i32>,
    pub email: Option<Seq<char>>,
    pub first_name: Option<Seq<char>>,
    pub last_name: Option<Seq<char>>,
    pub num_of_food_added: Option<i32>,
    pub num_of_food_taken: Option<i32>,
    pub profile_image: Option<Seq<char>>,
    pub email_verified: Option<i8>,
    pub password_hash: Seq<char>,
}

impl View for UserDetails {
    type V = UserDetailsV;

    open spec fn view(&self) -> UserDetailsV {
        UserDetailsV {
            id: self.id,
            email: view_opt_string(self.email),
            first_name: view_opt_string(self.first_name),
            last_name: view_opt_string(self.last_name),
            num_of_food_added: self.num_of_food_added,
            num_of_food_taken: self.num_of_food_taken,
            profile_image: view_opt_string(self.profile_image),
            email_verified: self.email_verified,
            password_hash: self.password_hash@,
        }
    }
}

/// Spec-level image of a [`GetUserDetails`] row.
#[verifier::ext_equal]
pub struct GetUserDetailsV {
    pub id: Option<i32>,
    pub email: Option<Seq<char>>,
    pub first_name: Option<Seq<char>>,
    pub last_name: Option<Seq<char>>,
    pub num_of_food_added: Option<i32>,
    pub num_of_food_taken: Option<i32>,
    pub profile_image: Option<Seq<char>>,
    pub email_verified: Option<i8>,
}

impl View for GetUserDetails {
    type V = GetUserDetailsV;

    open spec fn view(&self) -> GetUserDetailsV {
        GetUserDetailsV {
            id: self.id,
            email: view_opt_string(self.email),
            first_name: view_opt_string(self.first_name),
            last_name: view_opt_string(self.last_name),
            num_of_food_added: self.num_of_food_added,
            num_of_food_taken: self.num_of_food_taken,
            profile_image: view_opt_string(self.profile_image),
            email_verified: self.email_verified,
        }
    }
}

/// The uniform response envelope every endpoint produces.
pub struct ApiResponse<T> {
    pub success: bool,
    pub message: String,
    pub data: Option<T>,
}

/// Confirmation payload carrying the email of the account being acted on.
pub struct MajesticRes {
    pub user_email: String,
}

/// What a data-access operation can report instead of a result.
/// `NotFound` stands for a lookup that matched no row, `Invalid` for a
/// payload rejected before touching any row, and `Conflict` for an exhausted
/// id space.
pub enum DataError {
    NotFound,
    Invalid,
    Conflict,
}

impl DataError {
    /// A short human-readable description, used in failure envelopes.
    pub fn describe(&self) -> (r: String)
        ensures
            r@ == self.spec_describe(),
    {
        match self {
            DataError::NotFound => "no matching row".to_owned(),
            DataError::Invalid => "invalid payload".to_owned(),
            DataError::Conflict => "constraint violated".to_owned(),
        }
    }

    /// The description each error variant carries.
    pub open spec fn spec_describe(&self) -> Seq<char> {
        match self {
            DataError::NotFound => "no matching row"@,
            DataError::Invalid => "invalid payload"@,
            DataError::Conflict => "constraint violated"@,
        }
    }
}

/// Builds the success envelope: `success` true, the given message, and the
/// payload wrapped in `Some`.
pub fn success<T>(message: &str, data: T) -> (r: ApiResponse<T>)
    ensures
        r.success,
        r.message@ == message@,
        r.data == Some(data),
{
    ApiResponse { success: true, message: message.to_owned(), data: Some(data) }
}

/// Builds the failure envelope around a data-access error: the given
/// prefix followed by the error's description.
pub fn failure_with<T>(prefix: &str, e: &DataError) -> (r: ApiResponse<T>)
    ensures
        !r.success,
        r.message@ == prefix@ + e.spec_describe(),
        r.data is None,
{
    let mut message = prefix.to_owned();
    let described = e.describe();
    message.append(described.as_str());
    ApiResponse { success: false, message, data: None }
}

/// Builds the failure envelope: `success` false, the given message, no
/// payload.
pub fn failure<T>(message: &str) -> (r: ApiResponse<T>)
    ensures
        !r.success,
        r.message@ == message@,
        r.data is None,
{
    ApiResponse { success: false, message: message.to_owned(), data: None }
}

} // verus!
