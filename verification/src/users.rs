//! The room's user list as the front end hands it over (a JSON array of user
//! objects), and the lookup of one user's JSON by id.
use vstd::prelude::*;
use crate::text::{owned, str_equals};

verus! {

/// One element of the users array: the value of its `userId` member when
/// that member is a string, and the element itself as compact JSON text.
pub struct UserRecord {
    pub user_id: Option<String>,
    pub json: String,
}

/// The view of a user record: its optional id and its JSON text.
pub type UserRecordView = (Option<Seq<char>>, Seq<char>);

impl View for UserRecord {
    type V = UserRecordView;

    open spec fn view(&self) -> UserRecordView {
        (
            match self.user_id {
                Some(id) => Some(id@),
                None => None,
            },
            self.json@,
        )
    }
}

/// The views of a sequence of user records.
pub open spec fn records_view(v: Seq<UserRecord>) -> Seq<UserRecordView> {
    v.map_values(|r: UserRecord| r@)
}

/// What serde_json gives for `json` read as an array of values, each element
/// turned into the string value of its member `key` (if any) and its compact
/// JSON text; None when the text is not a JSON array.
pub uninterp spec fn parsed_users(json: Seq<char>, key: Seq<char>) -> Option<Seq<UserRecordView>>;

/// Reads `json` with `serde_json::from_str` as an array of `serde_json::Value`
/// and turns each element into a record: `Value::get(key)` followed by
/// `Value::as_str` for the id, and the element's `Display` output (compact
/// JSON) for the text. A parse error gives `None`. What this yields is named
/// by `parsed_users`, a function of the text and the key alone; the JSON
/// grammar and serialisation are not restated.
#[verifier::external_body]
pub fn parse_users(json: &str, key: &str) -> (r: Option<Vec<UserRecord>>)
    ensures
        r is None <==> parsed_users(json@, key@) is None,
        r matches Some(v) ==> parsed_users(json@, key@) == Some(records_view(v@)),
{
    let values: Vec<serde_json::Value> = serde_json::from_str(json).ok()?;
    Some(values.iter().map(|u| UserRecord {
        user_id: u.get(key).and_then(|v| v.as_str()).map(|s| s.to_string()),
        json: u.to_string(),
    }).collect())
}

/// The member of a user object that holds its id.
pub open spec fn user_id_key() -> Seq<char> {
    "userId"@
}

/// The room's users as records: the elements of the users JSON array, each
/// with the string value of its `userId` member; no users when the text is
/// not a JSON array.
pub open spec fn user_records(json: Seq<char>) -> Seq<UserRecordView> {
    match parsed_users(json, user_id_key()) {
        Some(recs) => recs,
        None => Seq::empty(),
    }
}

/// The room's users as records (none when `json` is not a JSON array).
pub fn read_users(json: &str) -> (r: Vec<UserRecord>)
    ensures
        records_view(r@) == user_records(json@),
{
    match parse_users(json, "userId") {
        Some(v) => v,
        None => {
            let v: Vec<UserRecord> = Vec::new();
            assert(records_view(v@) =~= Seq::<UserRecordView>::empty());
            v
        },
    }
}

/// The JSON text of the first record whose id is `user_id`, or `null`.
pub open spec fn user_json_for(recs: Seq<UserRecordView>, user_id: Seq<char>) -> Seq<char>
    decreases recs.len(),
{
    if recs.len() == 0 {
        "null"@
    } else if recs[0].0 == Some(user_id) {
        recs[0].1
    } else {
        user_json_for(recs.drop_first(), user_id)
    }
}

/// The JSON text of the first record whose id is `user_id`, or `null` when
/// there is none.
pub fn find_user_json(records: &Vec<UserRecord>, user_id: &str) -> (r: String)
    ensures
        r@ == user_json_for(records_view(records@), user_id@),
{
    let ghost all = records_view(records@);
    let n = records.len();
    let mut i: usize = 0;
    assert(all.skip(0) =~= all);
    while i < n
        invariant
            n == records@.len(),
            all == records_view(records@),
            i <= n,
            user_json_for(all, user_id@) == user_json_for(all.skip(i as int), user_id@),
        decreases n - i,
    {
        let rec = &records[i];
        let ghost rest = all.skip(i as int);
        assert(rest[0] == rec@);
        assert(rest.drop_first() =~= all.skip(i + 1));
        let found = match &rec.user_id {
            Some(id) => str_equals(id.as_str(), user_id),
            None => false,
        };
        if found {
            return rec.json.clone();
        }
        i = i + 1;
    }
    assert(all.skip(n as int).len() == 0);
    owned("null")
}

} // verus!
