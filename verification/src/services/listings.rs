//! Listings: the checks before one is created, its defaults, and the SQL
//! text of a partial update.
use vstd::prelude::*;
use vstd::string::StringExecFns;
use crate::input_types::id_types::{uuid_display, uuid_to_string};
use crate::text::{concat2, decimal, decimal_nat, i64_to_decimal, trim, trim_string, u64_to_decimal};

verus! {

/// Why a listing operation failed.
#[derive(Debug, Clone, PartialEq)]
pub enum ListingError {
    /// The database failed (its message).
    Database(String),
    /// No listing has this id.
    NotFound(u128),
    /// No category has this id.
    CategoryNotFound(i32),
    /// No user has this id.
    UserNotFound(u128),
    /// The request is invalid (why).
    Validation(String),
}

/// The message of a listing error, as its display shows it.
pub open spec fn listing_error_text(e: ListingError) -> Seq<char> {
    match e {
        ListingError::Database(m) => "Database error: "@ + m@,
        ListingError::NotFound(id) => "Listing not found: "@ + uuid_display(id),
        ListingError::CategoryNotFound(c) => "Category not found: "@ + decimal(c as int),
        ListingError::UserNotFound(id) => "User not found: "@ + uuid_display(id),
        ListingError::Validation(m) => "Validation error: "@ + m@,
    }
}

impl ListingError {
    /// The message shown for this error.
    pub fn message(&self) -> (r: String)
        ensures
            r@ == listing_error_text(*self),
    {
        match self {
            ListingError::Database(m) => concat2("Database error: ", m.as_str()),
            ListingError::NotFound(id) => {
                let t = uuid_to_string(*id);
                concat2("Listing not found: ", t.as_str())
            },
            ListingError::CategoryNotFound(c) => {
                let t = i64_to_decimal(*c as i64);
                concat2("Category not found: ", t.as_str())
            },
            ListingError::UserNotFound(id) => {
                let t = uuid_to_string(*id);
                concat2("User not found: ", t.as_str())
            },
            ListingError::Validation(m) => concat2("Validation error: ", m.as_str()),
        }
    }
}

/// A listing to create.
#[derive(Debug, Clone)]
pub struct CreateListingRequest {
    pub category_id: i32,
    pub title: String,
    pub description: Option<String>,
    /// In bani; 0 means free.
    pub price: Option<i32>,
    pub currency: Option<String>,
    pub attributes: Option<serde_json::Value>,
    pub image_urls: Option<Vec<String>>,
    pub phone: Option<String>,
    pub contact_email: Option<String>,
    pub county: Option<String>,
    pub city: Option<String>,
}

/// The fields of a listing to change (`None`: unchanged).
#[derive(Debug, Clone)]
pub struct UpdateListingRequest {
    pub title: Option<String>,
    pub description: Option<String>,
    pub price: Option<i32>,
    pub currency: Option<String>,
    pub attributes: Option<serde_json::Value>,
    pub image_urls: Option<Vec<String>>,
    pub phone: Option<String>,
    pub contact_email: Option<String>,
    pub county: Option<String>,
    pub city: Option<String>,
    pub status: Option<String>,
}

/// The category of a new listing must exist.
pub fn check_category(category_id: i32, exists: bool) -> (r: Result<(), ListingError>)
    ensures
        exists ==> r is Ok,
        !exists ==> r == Err::<(), ListingError>(ListingError::CategoryNotFound(category_id)),
{
    if exists {
        Ok(())
    } else {
        Err(ListingError::CategoryNotFound(category_id))
    }
}

/// The owner of a new listing must exist.
pub fn check_user(user_id: u128, exists: bool) -> (r: Result<(), ListingError>)
    ensures
        exists ==> r is Ok,
        !exists ==> r == Err::<(), ListingError>(ListingError::UserNotFound(user_id)),
{
    if exists {
        Ok(())
    } else {
        Err(ListingError::UserNotFound(user_id))
    }
}

/// The title of a new listing must not be blank.
pub fn check_title(title: &str) -> (r: Result<(), ListingError>)
    ensures
        trim(title@).len() > 0 ==> r is Ok,
        trim(title@).len() == 0 ==> (r matches Err(ListingError::Validation(m)) && m@
            == "Title cannot be empty"@),
{
    let t = trim_string(title);
    if t.as_str().is_empty() {
        Err(ListingError::Validation(String::from_str("Title cannot be empty")))
    } else {
        Ok(())
    }
}

/// The currency of a new listing (none given: `RON`).
pub fn listing_currency(currency: Option<String>) -> (r: String)
    ensures
        r@ == match currency {
            Some(c) => c@,
            None => "RON"@,
        },
{
    match currency {
        Some(c) => c,
        None => String::from_str("RON"),
    }
}

/// Each column of a listing that an update can change, with whether it does.
pub open spec fn column_flags(req: UpdateListingRequest) -> Seq<(bool, Seq<char>)> {
    seq![
        (req.title is Some, "title"@),
        (req.description is Some, "description"@),
        (req.price is Some, "price"@),
        (req.currency is Some, "currency"@),
        (req.attributes is Some, "attributes"@),
        (req.image_urls is Some, "image_urls"@),
        (req.phone is Some, "phone"@),
        (req.contact_email is Some, "contact_email"@),
        (req.county is Some, "county"@),
        (req.city is Some, "city"@),
        (req.status is Some, "status"@),
    ]
}

/// The columns whose flag is set, in order.
pub open spec fn flagged(fs: Seq<(bool, Seq<char>)>) -> Seq<Seq<char>>
    decreases fs.len(),
{
    if fs.len() == 0 {
        Seq::empty()
    } else if fs.last().0 {
        flagged(fs.drop_last()).push(fs.last().1)
    } else {
        flagged(fs.drop_last())
    }
}

/// The columns that an update changes, in the order of `column_flags`.
pub open spec fn present_columns(req: UpdateListingRequest) -> Seq<Seq<char>> {
    flagged(column_flags(req))
}

/// The assignments of the changed columns, separated by `, `: each column is
/// set to its numbered parameter (`title = $1`, `$2`, … in order).
pub open spec fn set_list(cols: Seq<Seq<char>>) -> Seq<char>
    decreases cols.len(),
{
    if cols.len() == 0 {
        Seq::empty()
    } else if cols.len() == 1 {
        cols[0] + " = $1"@
    } else {
        set_list(cols.drop_last()) + ", "@ + cols.last() + " = $"@ + decimal_nat(cols.len())
    }
}

/// The columns that an update returns.
pub open spec fn listing_returning() -> Seq<char> {
    " RETURNING id, user_id, category_id, title, description, price,\n                   currency, attributes, image_urls, phone, contact_email,\n                   county, city, status, views, created_at, updated_at, expires_at"@
}

/// The SQL text of an update of the listing with the changed columns `cols`:
/// the assignments, `updated_at = NOW()`, the id as the last parameter, and
/// the returned columns.
pub open spec fn update_sql(cols: Seq<Seq<char>>) -> Seq<char> {
    "UPDATE listings SET "@ + set_list(cols) + (if cols.len() > 0 {
        ", updated_at = NOW()"@
    } else {
        "updated_at = NOW()"@
    }) + " WHERE id = $"@ + decimal_nat(cols.len() + 1) + listing_returning()
}

/// The columns that an update changes.
fn changed_columns(req: &UpdateListingRequest) -> (r: Vec<&'static str>)
    ensures
        r@.map_values(|c: &str| c@) == present_columns(*req),
        r@.len() <= 11,
{
    let mut fs: Vec<(bool, &'static str)> = Vec::new();
    fs.push((req.title.is_some(), "title"));
    fs.push((req.description.is_some(), "description"));
    fs.push((req.price.is_some(), "price"));
    fs.push((req.currency.is_some(), "currency"));
    fs.push((req.attributes.is_some(), "attributes"));
    fs.push((req.image_urls.is_some(), "image_urls"));
    fs.push((req.phone.is_some(), "phone"));
    fs.push((req.contact_email.is_some(), "contact_email"));
    fs.push((req.county.is_some(), "county"));
    fs.push((req.city.is_some(), "city"));
    fs.push((req.status.is_some(), "status"));
    let ghost fv = fs@.map_values(|f: (bool, &str)| (f.0, f.1@));
    assert(fv =~= column_flags(*req));
    let mut cols: Vec<&'static str> = Vec::new();
    let mut i: usize = 0;
    while i < fs.len()
        invariant
            i <= fs.len(),
            fv == fs@.map_values(|f: (bool, &str)| (f.0, f.1@)),
            fs@.len() == 11,
            cols@.len() <= i,
            cols@.map_values(|c: &str| c@) == flagged(fv.subrange(0, i as int)),
        decreases fs.len() - i,
    {
        let ghost pre = fv.subrange(0, i as int);
        let ghost next = fv.subrange(0, i + 1);
        proof {
            assert(next.drop_last() =~= pre);
            assert(next.last() == (fs@[i as int].0, fs@[i as int].1@));
        }
        if fs[i].0 {
            let ghost before = cols@;
            cols.push(fs[i].1);
            assert(cols@.map_values(|c: &str| c@) =~= before.map_values(|c: &str| c@).push(
                fs@[i as int].1@,
            ));
        }
        i += 1;
    }
    assert(fv.subrange(0, fs.len() as int) =~= fv);
    cols
}

/// The SQL text of a partial update (see `update_sql`); the values are bound
/// in the order of `present_columns`, then the id.
pub fn update_listing_sql(req: &UpdateListingRequest) -> (r: String)
    ensures
        r@ == update_sql(present_columns(*req)),
{
    let cols = changed_columns(req);
    let ghost cv = cols@.map_values(|c: &str| c@);
    let mut sql = String::from_str("UPDATE listings SET ");
    let ghost head = "UPDATE listings SET "@;
    let mut i: usize = 0;
    while i < cols.len()
        invariant
            i <= cols.len(),
            cv == cols@.map_values(|c: &str| c@),
            sql@ == head + set_list(cv.subrange(0, i as int)),
        decreases cols.len() - i,
    {
        let ghost pre = cv.subrange(0, i as int);
        let ghost next = cv.subrange(0, i + 1);
        proof {
            assert(next.drop_last() =~= pre);
            assert(next.last() == cols@[i as int]@);
        }
        if i > 0 {
            sql.append(", ");
        }
        sql.append(cols[i]);
        sql.append(" = $");
        let n = u64_to_decimal((i + 1) as u64);
        sql.append(n.as_str());
        proof {
            if i == 0 {
                reveal_strlit(" = $1");
                reveal_strlit(" = $");
                assert(decimal_nat(1) == seq!['1']);
                assert(" = $"@ + seq!['1'] =~= " = $1"@);
                assert(next =~= seq![cols@[0]@]);
            }
            assert(sql@ =~= head + set_list(next));
        }
        i += 1;
    }
    assert(cv.subrange(0, cols.len() as int) =~= cv);
    if cols.len() > 0 {
        sql.append(", updated_at = NOW()");
    } else {
        sql.append("updated_at = NOW()");
    }
    sql.append(" WHERE id = $");
    let n = u64_to_decimal((cols.len() + 1) as u64);
    sql.append(n.as_str());
    sql.append(
        " RETURNING id, user_id, category_id, title, description, price,\n                   currency, attributes, image_urls, phone, contact_email,\n                   county, city, status, views, created_at, updated_at, expires_at",
    );
    sql
}

} // verus!
