use crate::auth::{jwt_of, opt_view, Authority};
use crate::date::{date_le, date_not_after, parse_date, parsed_date, Date};
use crate::error::JsonErr;
use crate::money::{
    exact_total, parse_amount, total_repr, parsed_amount, scale_of_all, total_fits, total_of, value_at, Amount,
};
use vstd::prelude::*;
use vstd::string::StringExecFns;
use vstd::string::StrSliceExecFns;

verus! {

/// How long a login token stays valid: thirty days, in seconds.
pub const LOGIN_TTL_SECONDS: i64 = 2592000;

/// The shortest password accepted at registration, in characters.
pub const MIN_PASSWORD_CHARS: usize = 6;

/// A stored account.
pub struct UserRow {
    pub id: i32,
    pub account: String,
    pub pass: String,
}

/// A stored tag.
pub struct TagRow {
    pub id: i32,
    pub user_id: i32,
    pub name: String,
}

/// A stored transaction, with the name of its tag when the tag exists.
pub struct BillRow {
    pub id: i32,
    pub user_id: i32,
    pub tag_id: i32,
    pub pay: Option<String>,
    pub pay_method: String,
    pub comment: Option<String>,
    pub transaction_date: Date,
    pub tag_name: Option<String>,
}

/// An account to be stored: its name and the hash of its password.
pub struct NewUser {
    pub account: String,
    pub pass_hash: String,
}

/// What a login looks up: the account and the hash of the password given.
pub struct Credentials {
    pub account: String,
    pub pass_hash: String,
}

/// A tag to be stored.
pub struct NewTag {
    pub user_id: i32,
    pub name: String,
}

/// A transaction to be stored.
pub struct NewBill {
    pub user_id: i32,
    pub tag_id: i32,
    pub pay: Amount,
    pub pay_method: String,
    pub comment: String,
    pub transaction_date: Date,
}

/// The window of a transaction listing.
#[derive(Clone, Copy, Debug, PartialEq, Eq, Structural)]
pub struct ListQuery {
    pub user_id: i32,
    pub begin: Date,
    pub end: Date,
}

/// A transaction listing: the rows, and the exact total of their amounts
/// (absent when there are no rows).
pub struct Listing {
    pub list: Vec<BillRow>,
    pub pay_amount: Option<Amount>,
}

fn copy_opt(o: &Option<String>) -> (r: Option<String>)
    ensures
        r == *o,
{
    match o {
        Some(s) => Some(s.clone()),
        None => None,
    }
}

impl TagRow {
    pub fn duplicate(&self) -> (r: TagRow)
        ensures
            r == *self,
    {
        TagRow { id: self.id, user_id: self.user_id, name: self.name.clone() }
    }
}

impl BillRow {
    pub fn duplicate(&self) -> (r: BillRow)
        ensures
            r == *self,
    {
        BillRow {
            id: self.id,
            user_id: self.user_id,
            tag_id: self.tag_id,
            pay: copy_opt(&self.pay),
            pay_method: self.pay_method.clone(),
            comment: copy_opt(&self.comment),
            transaction_date: self.transaction_date,
            tag_name: copy_opt(&self.tag_name),
        }
    }
}

/// The lower-case hex MD5 digest of a text's bytes.
pub uninterp spec fn md5_hex_of(s: Seq<char>) -> Seq<char>;

/// Relies on `md5::compute` and its `LowerHex` formatting: two hex digits
/// for each of the digest's sixteen bytes.
#[verifier::external_body]
fn md5_hex(s: &str) -> (r: String)
    ensures
        r@ == md5_hex_of(s@),
        r@.len() == 32,
{
    format!("{:x}", md5::compute(s))
}

/// What is hashed to store a password: the account name, as the salt, a
/// colon, then the password.
pub open spec fn salted(account: Seq<char>, password: Seq<char>) -> Seq<char> {
    account + ":"@ + password
}

/// The stored form of a password: the MD5 digest of the password salted
/// with its account name.
pub fn password_hash(account: &str, password: &str) -> (r: String)
    ensures
        r@ == md5_hex_of(salted(account@, password@)),
{
    let mut input = String::from_str(account);
    input.append(":");
    input.append(password);
    md5_hex(input.as_str())
}

fn bad_request(msg: &str) -> (e: JsonErr)
    ensures
        e.code == 400,
        e.msg@ == msg@,
{
    JsonErr::from_error(400, String::from_str(msg))
}

/// What registration makes of the submitted fields: the account and the
/// hash of its password, or the message of the 400 that refuses them.
pub open spec fn registration_of(account: Option<Seq<char>>, password: Option<Seq<char>>) -> Result<
    (Seq<char>, Seq<char>),
    Seq<char>,
> {
    match (account, password) {
        (None, _) => Err("account is required"@),
        (Some(a), _) if a.len() == 0 => Err("account is required"@),
        (Some(_), None) => Err("password is required"@),
        (Some(_), Some(p)) if p.len() == 0 => Err("password is required"@),
        (Some(a), Some(p)) => if p.len() < MIN_PASSWORD_CHARS {
            Err("password must be at least 6 characters"@)
        } else {
            Ok((a, md5_hex_of(salted(a, p))))
        },
    }
}

/// Validates a registration and hashes its password, salted with the account.
pub fn registry(account: Option<String>, password: Option<String>) -> (r: Result<NewUser, JsonErr>)
    ensures
        r matches Ok(u) ==> registration_of(opt_view(account), opt_view(password)) == Ok::<
            (Seq<char>, Seq<char>),
            Seq<char>,
        >((u.account@, u.pass_hash@)),
        r matches Err(e) ==> e.code == 400 && registration_of(
            opt_view(account),
            opt_view(password),
        ) == Err::<(Seq<char>, Seq<char>), Seq<char>>(e.msg@),
{
    let account = match account {
        Some(a) => a,
        None => {
            return Err(bad_request("account is required"));
        },
    };
    if account.as_str().unicode_len() == 0 {
        return Err(bad_request("account is required"));
    }
    let pass = match password {
        Some(p) => p,
        None => {
            return Err(bad_request("password is required"));
        },
    };
    let n = pass.as_str().unicode_len();
    if n == 0 {
        return Err(bad_request("password is required"));
    }
    if n < MIN_PASSWORD_CHARS {
        return Err(bad_request("password must be at least 6 characters"));
    }
    let pass_hash = password_hash(account.as_str(), pass.as_str());
    Ok(NewUser { account, pass_hash })
}

pub open spec fn account_taken(account: Seq<char>, users: Seq<UserRow>) -> bool {
    exists|i: int| 0 <= i < users.len() && (#[trigger] users[i]).account@ == account
}

/// Refuses an account name that is already stored.
pub fn account_available(account: &String, users: &Vec<UserRow>) -> (r: Result<(), JsonErr>)
    ensures
        r is Ok <==> !account_taken(account@, users@),
        r matches Err(e) ==> e.code == 400 && e.msg@ == "account exists"@,
{
    let mut i: usize = 0;
    while i < users.len()
        invariant
            i <= users.len(),
            forall|j: int| 0 <= j < i ==> (#[trigger] users@[j]).account@ != account@,
        decreases users.len() - i,
    {
        if users[i].account == *account {
            return Err(bad_request("account exists"));
        }
        i = i + 1;
    }
    Ok(())
}

/// Reads the fields of a login and hashes its password as registration does.
pub fn login(account: Option<String>, password: Option<String>) -> (r: Result<Credentials, JsonErr>)
    ensures
        r matches Ok(c) ==> account == Some(c.account) && password is Some && c.pass_hash@
            == md5_hex_of(salted(account->Some_0@, password->Some_0@)),
        r is Err <==> account is None || password is None,
        r matches Err(e) ==> e.code == 400 && (account is None ==> e.msg@
            == "account is required"@) && (account is Some ==> e.msg@ == "password is required"@),
{
    let account = match account {
        Some(a) => a,
        None => {
            return Err(bad_request("account is required"));
        },
    };
    let pass = match password {
        Some(p) => p,
        None => {
            return Err(bad_request("password is required"));
        },
    };
    let pass_hash = password_hash(account.as_str(), pass.as_str());
    Ok(Credentials { account, pass_hash })
}

pub open spec fn login_match(u: UserRow, account: Seq<char>, pass_hash: Seq<char>) -> bool {
    u.account@ == account && u.pass@ == pass_hash
}

/// Issues a token for the first stored account whose name and password
/// hash match, valid for thirty days from `now`. No match gives one
/// message, whether the account is unknown or the password wrong.
pub fn login_token(authority: &Authority, creds: &Credentials, users: &Vec<UserRow>, now: i64) -> (r:
    Result<String, JsonErr>)
    ensures
        r matches Ok(t) ==> exists|i: int|
            0 <= i < users.len() && login_match(users@[i], creds.account@, creds.pass_hash@) && (
            forall|j: int|
                0 <= j < i ==> !login_match(#[trigger] users@[j], creds.account@, creds.pass_hash@))
                && t@ == #[trigger] jwt_of(
                users@[i].id,
                (now + LOGIN_TTL_SECONDS) as i64,
                authority.secret(),
            ),
        (forall|i: int|
            0 <= i < users.len() ==> !login_match(
                #[trigger] users@[i],
                creds.account@,
                creds.pass_hash@,
            )) <==> (r matches Err(e) && e.code == 400),
        r matches Err(e) ==> (e.code == 400 && e.msg@ == "invalid account or password"@)
            || e.code == 500,
        (exists|i: int|
            0 <= i < users.len() && login_match(
                #[trigger] users@[i],
                creds.account@,
                creds.pass_hash@,
            )) && i64::MIN <= now + LOGIN_TTL_SECONDS <= i64::MAX ==> r is Ok,
{
    let mut i: usize = 0;
    while i < users.len()
        invariant
            i <= users.len(),
            forall|j: int|
                0 <= j < i ==> !login_match(#[trigger] users@[j], creds.account@, creds.pass_hash@),
        decreases users.len() - i,
    {
        if users[i].account == creds.account && users[i].pass == creds.pass_hash {
            return authority.sign_at(users[i].id, LOGIN_TTL_SECONDS, now);
        }
        i = i + 1;
    }
    Err(bad_request("invalid account or password"))
}

/// Some stored tag of `user_id` already carries `name`.
pub open spec fn tag_conflict(user_id: i32, name: Seq<char>, tags: Seq<TagRow>) -> bool {
    exists|i: int|
        0 <= i < tags.len() && (#[trigger] tags[i]).user_id == user_id && tags[i].name@ == name
}

/// Creates a tag for `user_id`, given the stored tags. The name must be
/// given and non-empty (400), and no tag of the same user may carry it
/// (409, only for a non-empty name). Tags of other users do not matter.
pub fn add_tag(user_id: i32, name: Option<String>, tags: &Vec<TagRow>) -> (r: Result<
    NewTag,
    JsonErr,
>)
    ensures
        r is Ok <==> (name matches Some(n) && n@.len() > 0 && !tag_conflict(user_id, n@, tags@)),
        r matches Ok(t) ==> t.user_id == user_id && name == Some(t.name),
        (name is None || name->Some_0@.len() == 0) ==> (r matches Err(e) && e.code == 400
            && e.msg@ == "tag name is required"@),
        (name matches Some(n) && n@.len() > 0 && tag_conflict(user_id, n@, tags@)) ==> (
        r matches Err(e) && e.code == 409 && e.msg@ == "tag already exists"@),
{
    let n = match &name {
        Some(n) => n,
        None => {
            return Err(bad_request("tag name is required"));
        },
    };
    if n.as_str().unicode_len() == 0 {
        return Err(bad_request("tag name is required"));
    }
    let mut i: usize = 0;
    while i < tags.len()
        invariant
            name == Some(*n),
            n@.len() > 0,
            i <= tags.len(),
            forall|j: int|
                0 <= j < i ==> !((#[trigger] tags@[j]).user_id == user_id && tags@[j].name@
                    == n@),
        decreases tags.len() - i,
    {
        if tags[i].user_id == user_id && tags[i].name == *n {
            proof {
                assert(tags@[i as int].user_id == user_id && tags@[i as int].name@ == n@);
                assert(tag_conflict(user_id, n@, tags@));
            }
            return Err(JsonErr::from_error(409, String::from_str("tag already exists")));
        }
        i = i + 1;
    }
    Ok(NewTag { user_id, name: n.clone() })
}

/// A name that one user holds as a tag is refused to that user again, and
/// is free for any other user whose tags do not carry it.
pub proof fn lemma_tag_uniqueness(owner: i32, other: i32, name: Seq<char>, tags: Seq<TagRow>, t: TagRow)
    requires
        t.user_id == owner,
        t.name@ == name,
        other != owner,
        forall|i: int|
            0 <= i < tags.len() && (#[trigger] tags[i]).name@ == name ==> tags[i].user_id == owner,
    ensures
        tag_conflict(owner, name, tags.push(t)),
        !tag_conflict(other, name, tags.push(t)),
{
    let all = tags.push(t);
    assert(all[tags.len() as int] == t);
    assert forall|i: int| 0 <= i < all.len() && (#[trigger] all[i]).user_id == other implies all[i].name@
        != name by {
        if i < tags.len() {
            assert(all[i] == tags[i]);
        }
    }
}

/// The answer to deleting the record `id` for `user_id`, given what a
/// lookup by id found (its id and owner): the id to delete, or the code of
/// the refusal.
pub open spec fn removal_of(user_id: i32, id: i32, found: Option<(i32, i32)>) -> Result<i32, i32> {
    match found {
        Some((fid, owner)) => if fid == id && owner == user_id {
            Ok(id)
        } else {
            Err(400)
        },
        None => Err(400),
    }
}

/// Deleting a record that another user owns is refused exactly as deleting
/// one that does not exist.
pub proof fn lemma_ownership_isolation(user_id: i32, owner: i32, id: i32)
    requires
        owner != user_id,
    ensures
        removal_of(user_id, id, Some((id, owner))) == removal_of(user_id, id, None),
{
}

pub open spec fn tag_key(t: Option<TagRow>) -> Option<(i32, i32)> {
    match t {
        Some(t) => Some((t.id, t.user_id)),
        None => None,
    }
}

pub open spec fn bill_key(b: Option<BillRow>) -> Option<(i32, i32)> {
    match b {
        Some(b) => Some((b.id, b.user_id)),
        None => None,
    }
}

/// Deletes tag `tag_id` for `user_id`, given the tag stored under that id,
/// if any. A tag of another user is refused as a missing one is. Deleting a
/// tag leaves its transactions in place; they list with no tag name.
pub fn del_tag(user_id: i32, tag_id: i32, found: &Option<TagRow>) -> (r: Result<i32, JsonErr>)
    ensures
        r matches Ok(id) ==> removal_of(user_id, tag_id, tag_key(*found)) == Ok::<i32, i32>(id),
        r matches Err(e) ==> removal_of(user_id, tag_id, tag_key(*found)) == Err::<i32, i32>(e.code)
            && e.msg@ == "tag not found"@,
{
    match found {
        Some(t) => if t.id == tag_id && t.user_id == user_id {
            Ok(tag_id)
        } else {
            Err(bad_request("tag not found"))
        },
        None => Err(bad_request("tag not found")),
    }
}

/// Deletes transaction `id` for `user_id`, given the transaction stored
/// under that id, if any. One of another user is refused as a missing one is.
pub fn del_bill(user_id: i32, id: i32, found: &Option<BillRow>) -> (r: Result<i32, JsonErr>)
    ensures
        r matches Ok(k) ==> removal_of(user_id, id, bill_key(*found)) == Ok::<i32, i32>(k),
        r matches Err(e) ==> removal_of(user_id, id, bill_key(*found)) == Err::<i32, i32>(e.code)
            && e.msg@ == "transaction not found"@,
{
    match found {
        Some(b) => if b.id == id && b.user_id == user_id {
            Ok(id)
        } else {
            Err(bad_request("transaction not found"))
        },
        None => Err(bad_request("transaction not found")),
    }
}

/// The tags among `tags` that `user_id` owns, in their order.
pub open spec fn tags_of(user_id: i32, tags: Seq<TagRow>) -> Seq<TagRow> {
    tags.filter(|t: TagRow| t.user_id == user_id)
}

/// Lists the tags of `user_id`.
pub fn tag_list(user_id: i32, tags: &Vec<TagRow>) -> (r: Vec<TagRow>)
    ensures
        r@ == tags_of(user_id, tags@),
{
    let mut out: Vec<TagRow> = Vec::new();
    let mut i: usize = 0;
    while i < tags.len()
        invariant
            i <= tags.len(),
            out@ == tags_of(user_id, tags@.take(i as int)),
        decreases tags.len() - i,
    {
        proof {
            assert(tags@.take(i as int + 1).drop_last() =~= tags@.take(i as int));
            reveal(Seq::filter);
        }
        if tags[i].user_id == user_id {
            out.push(tags[i].duplicate());
        }
        i = i + 1;
    }
    proof {
        assert(tags@.take(i as int) =~= tags@);
    }
    out
}

/// The window a listing asks for, or the message of the 400 that refuses
/// it: both bounds must be given and parse as `YYYY-MM-DD`, and the first
/// must not fall after the second.
pub open spec fn list_window_of(begin: Option<Seq<char>>, end: Option<Seq<char>>) -> Result<
    (Date, Date),
    Seq<char>,
> {
    match begin {
        None => Err("begin date is required"@),
        Some(b) => match parsed_date(b) {
            None => Err("invalid begin date"@),
            Some(x) => match end {
                None => Err("end date is required"@),
                Some(e) => match parsed_date(e) {
                    None => Err("invalid end date"@),
                    Some(y) => if date_le(x, y) {
                        Ok((x, y))
                    } else {
                        Err("invalid date range"@)
                    },
                },
            },
        },
    }
}

/// Plans a listing for `user_id`: the window to query, or the 400 that ends
/// the request before any lookup.
pub fn bill_list(user_id: i32, begin: Option<String>, end: Option<String>) -> (r: Result<
    ListQuery,
    JsonErr,
>)
    ensures
        r matches Ok(q) ==> q.user_id == user_id && list_window_of(
            opt_view(begin),
            opt_view(end),
        ) == Ok::<(Date, Date), Seq<char>>((q.begin, q.end)),
        r matches Err(e) ==> e.code == 400 && list_window_of(opt_view(begin), opt_view(end))
            == Err::<(Date, Date), Seq<char>>(e.msg@),
{
    let b = match &begin {
        Some(b) => b,
        None => {
            return Err(bad_request("begin date is required"));
        },
    };
    let x = match parse_date(b.as_str()) {
        Some(x) => x,
        None => {
            return Err(bad_request("invalid begin date"));
        },
    };
    let e = match &end {
        Some(e) => e,
        None => {
            return Err(bad_request("end date is required"));
        },
    };
    let y = match parse_date(e.as_str()) {
        Some(y) => y,
        None => {
            return Err(bad_request("invalid end date"));
        },
    };
    if !date_not_after(&x, &y) {
        return Err(bad_request("invalid date range"));
    }
    Ok(ListQuery { user_id, begin: x, end: y })
}

/// A window whose first day falls after its last is refused as an invalid
/// range, so no query is ever planned for it.
pub proof fn lemma_range_validity(begin: Seq<char>, end: Seq<char>, x: Date, y: Date)
    requires
        parsed_date(begin) == Some(x),
        parsed_date(end) == Some(y),
        !date_le(x, y),
    ensures
        list_window_of(Some(begin), Some(end)) == Err::<(Date, Date), Seq<char>>(
            "invalid date range"@,
        ),
{
}

/// A transaction of the query's user dated within its closed window.
pub open spec fn in_window(q: ListQuery, b: BillRow) -> bool {
    b.user_id == q.user_id && date_le(q.begin, b.transaction_date) && date_le(
        b.transaction_date,
        q.end,
    )
}

/// The rows a listing shows, in their order.
pub open spec fn selected(q: ListQuery, rows: Seq<BillRow>) -> Seq<BillRow> {
    rows.filter(|b: BillRow| in_window(q, b))
}

/// The amounts of the rows that hold a well-formed decimal, in order; a
/// row whose amount is missing or malformed adds nothing.
pub open spec fn pays_of(rows: Seq<BillRow>) -> Seq<Amount>
    decreases rows.len(),
{
    if rows.len() == 0 {
        Seq::empty()
    } else {
        let rest = pays_of(rows.drop_last());
        match rows.last().pay {
            Some(p) => match parsed_amount(p@) {
                Some(a) => rest.push(a),
                None => rest,
            },
            None => rest,
        }
    }
}

/// A row whose amount is malformed still lists, and leaves the total as it was.
pub proof fn lemma_malformed_excluded(q: ListQuery, rows: Seq<BillRow>, b: BillRow)
    requires
        in_window(q, b),
        b.pay matches Some(p) && parsed_amount(p@) is None,
    ensures
        selected(q, rows.push(b)) == selected(q, rows).push(b),
        pays_of(selected(q, rows.push(b))) == pays_of(selected(q, rows)),
{
    reveal(Seq::filter);
    assert(rows.push(b).drop_last() =~= rows);
    assert(selected(q, rows).push(b).drop_last() =~= selected(q, rows));
}

/// Lists the rows of the query's user dated within its window, and their
/// exact total. The total is absent when no row is selected; otherwise it
/// is the exact decimal sum of the well-formed amounts, at the finest scale
/// among them and at least cents. Fails with a server error only when a
/// partial sum cannot be held in 96 bits.
pub fn list_transactions(q: &ListQuery, rows: &Vec<BillRow>) -> (r: Result<Listing, JsonErr>)
    ensures
        r matches Ok(l) ==> l.list@ == selected(*q, rows@),
        r matches Ok(l) ==> (l.pay_amount is None <==> l.list@.len() == 0),
        r matches Ok(l) ==> (l.pay_amount matches Some(t) ==> t == total_repr(
            pays_of(selected(*q, rows@)),
        )),
        r matches Ok(l) ==> (l.pay_amount matches Some(t) ==> t.wf() && t.scale <= scale_of_all(
            pays_of(selected(*q, rows@)),
        ) && value_at(t, scale_of_all(pays_of(selected(*q, rows@)))) == exact_total(
            pays_of(selected(*q, rows@)),
            scale_of_all(pays_of(selected(*q, rows@))),
        )),
        total_fits(pays_of(selected(*q, rows@))) ==> r is Ok,
        r matches Err(e) ==> e.code == 500,
{
    let mut list: Vec<BillRow> = Vec::new();
    let mut amts: Vec<Amount> = Vec::new();
    let mut i: usize = 0;
    while i < rows.len()
        invariant
            i <= rows.len(),
            list@ == selected(*q, rows@.take(i as int)),
            amts@ == pays_of(list@),
            forall|j: int| 0 <= j < amts.len() ==> (#[trigger] amts@[j]).wf(),
        decreases rows.len() - i,
    {
        proof {
            assert(rows@.take(i as int + 1).drop_last() =~= rows@.take(i as int));
            reveal(Seq::filter);
        }
        let row = &rows[i];
        let keep = row.user_id == q.user_id && date_not_after(&q.begin, &row.transaction_date)
            && date_not_after(&row.transaction_date, &q.end);
        if keep {
            let ghost before = list@;
            list.push(row.duplicate());
            proof {
                assert(list@.drop_last() =~= before);
            }
            match &row.pay {
                Some(p) => match parse_amount(p.as_str()) {
                    Some(a) => {
                        amts.push(a);
                    },
                    None => {},
                },
                None => {},
            }
        }
        i = i + 1;
    }
    proof {
        assert(rows@.take(i as int) =~= rows@);
    }
    if list.len() == 0 {
        return Ok(Listing { list, pay_amount: None });
    }
    match total_of(&amts) {
        Ok(t) => Ok(Listing { list, pay_amount: Some(t) }),
        Err(e) => Err(e),
    }
}

/// The message of the first field of a new transaction that is missing or
/// does not parse, in the order the form is read; none when all are fine.
pub open spec fn bill_form_error(
    pay: Option<Seq<char>>,
    pay_method: Option<Seq<char>>,
    comment: Option<Seq<char>>,
    transaction_date: Option<Seq<char>>,
    tag_id: Option<i32>,
) -> Option<Seq<char>> {
    if pay is None {
        Some("pay is required"@)
    } else if parsed_amount(pay->Some_0) is None {
        Some("invalid pay"@)
    } else if pay_method is None {
        Some("pay method is required"@)
    } else if comment is None {
        Some("comment is required"@)
    } else if transaction_date is None {
        Some("transaction date is required"@)
    } else if parsed_date(transaction_date->Some_0) is None {
        Some("invalid transaction date"@)
    } else if tag_id is None {
        Some("tag is required"@)
    } else {
        None
    }
}

/// Reads a new transaction of `user_id` from its form fields. Its tag is
/// checked against storage afterwards (`check_bill_tag`).
pub fn bill_add(
    user_id: i32,
    pay: Option<String>,
    pay_method: Option<String>,
    comment: Option<String>,
    transaction_date: Option<String>,
    tag_id: Option<i32>,
) -> (r: Result<NewBill, JsonErr>)
    ensures
        r is Ok <==> bill_form_error(
            opt_view(pay),
            opt_view(pay_method),
            opt_view(comment),
            opt_view(transaction_date),
            tag_id,
        ) is None,
        r matches Err(e) ==> e.code == 400 && bill_form_error(
            opt_view(pay),
            opt_view(pay_method),
            opt_view(comment),
            opt_view(transaction_date),
            tag_id,
        ) == Some(e.msg@),
        r matches Ok(b) ==> b.user_id == user_id && tag_id == Some(b.tag_id) && parsed_amount(
            pay->Some_0@,
        ) == Some(b.pay) && pay_method == Some(b.pay_method) && comment == Some(b.comment)
            && parsed_date(transaction_date->Some_0@) == Some(b.transaction_date),
{
    let p = match &pay {
        Some(p) => p,
        None => {
            return Err(bad_request("pay is required"));
        },
    };
    let amount = match parse_amount(p.as_str()) {
        Some(a) => a,
        None => {
            return Err(bad_request("invalid pay"));
        },
    };
    let method = match pay_method {
        Some(m) => m,
        None => {
            return Err(bad_request("pay method is required"));
        },
    };
    let note = match comment {
        Some(c) => c,
        None => {
            return Err(bad_request("comment is required"));
        },
    };
    let d = match &transaction_date {
        Some(d) => d,
        None => {
            return Err(bad_request("transaction date is required"));
        },
    };
    let date = match parse_date(d.as_str()) {
        Some(x) => x,
        None => {
            return Err(bad_request("invalid transaction date"));
        },
    };
    let tag = match tag_id {
        Some(t) => t,
        None => {
            return Err(bad_request("tag is required"));
        },
    };
    Ok(
        NewBill {
            user_id,
            tag_id: tag,
            pay: amount,
            pay_method: method,
            comment: note,
            transaction_date: date,
        },
    )
}

/// Admits a new transaction only when its tag, as stored under its tag id,
/// belongs to the same user; otherwise a 400 "invalid tag".
pub fn check_bill_tag(bill: NewBill, tag: &Option<TagRow>) -> (r: Result<NewBill, JsonErr>)
    ensures
        r is Ok <==> (tag matches Some(t) && t.id == bill.tag_id && t.user_id == bill.user_id),
        r matches Ok(b) ==> b == bill,
        r matches Err(e) ==> e.code == 400 && e.msg@ == "invalid tag"@,
{
    match tag {
        Some(t) => if t.id == bill.tag_id && t.user_id == bill.user_id {
            Ok(bill)
        } else {
            Err(bad_request("invalid tag"))
        },
        None => Err(bad_request("invalid tag")),
    }
}

} // verus!
