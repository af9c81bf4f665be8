use ledger::auth::{check_auth_id, extract_token, Authority, JwtClaims, Rejection, VerificationOutcome};
use ledger::bill::{
    account_available, add_tag, bill_add, bill_list, check_bill_tag, del_bill, del_tag,
    list_transactions, login, login_token, registry, tag_list, BillRow, ListQuery, TagRow,
    UserRow, LOGIN_TTL_SECONDS,
};
use ledger::date::{parse_date, Date};
use ledger::error::{res_error, JsonErr};
use ledger::money::{parse_amount, total_of, Amount};

fn s(x: &str) -> Option<String> {
    Some(x.to_string())
}

fn date(year: i32, month: u32, day: u32) -> Date {
    Date { year, month, day }
}

fn bill(id: i32, user_id: i32, pay: Option<&str>, d: Date) -> BillRow {
    BillRow {
        id,
        user_id,
        tag_id: 1,
        pay: pay.map(|p| p.to_string()),
        pay_method: "cash".to_string(),
        comment: None,
        transaction_date: d,
        tag_name: Some("food".to_string()),
    }
}

fn rendered(a: Amount) -> String {
    rust_decimal::Decimal::from_i128_with_scale(a.mantissa, a.scale).to_string()
}

#[test]
fn token_round_trip_and_expiry() {
    let auth = Authority::new("k3y".to_string());
    let token = auth.sign_at(42, 3600, 1_000_000).ok().unwrap();
    assert_eq!(
        auth.verify_at(&token, 1_000_000),
        VerificationOutcome::Authorized(JwtClaims { id: 42, exp: 1_003_600 })
    );
    assert_eq!(
        auth.verify_at(&token, 1_003_599),
        VerificationOutcome::Authorized(JwtClaims { id: 42, exp: 1_003_600 })
    );
    assert_eq!(auth.verify_at(&token, 1_003_600), VerificationOutcome::Rejected(Rejection::Expired));
}

#[test]
fn sign_now_verifies_now() {
    let auth = Authority::new("k3y".to_string());
    let token = auth.sign(7, 600).ok().unwrap();
    match auth.verify(&token) {
        VerificationOutcome::Authorized(c) => assert_eq!(c.id, 7),
        other => panic!("fresh token rejected: {other:?}"),
    }
}

#[test]
fn token_under_other_secret_is_refused() {
    let a = Authority::new("one".to_string());
    let b = Authority::new("two".to_string());
    let token = a.sign_at(1, 60, 100).ok().unwrap();
    assert_eq!(b.verify_at(&token, 100), VerificationOutcome::Rejected(Rejection::SignatureInvalid));
    assert_eq!(a.verify_at("not a token", 100), VerificationOutcome::Rejected(Rejection::Malformed));
}

#[test]
fn expiry_overflow_is_a_server_error() {
    let auth = Authority::new("k".to_string());
    let e = auth.sign_at(1, i64::MAX, 10).err().unwrap();
    assert_eq!(e.code, 500);
}

#[test]
fn token_found_in_header_before_query() {
    assert_eq!(extract_token(s("Bearer abc"), s("xyz")), s("abc"));
    assert_eq!(extract_token(s("bearer   abc"), None), s("abc"));
    assert_eq!(extract_token(s("Basic abc"), s("xyz")), s("xyz"));
    assert_eq!(extract_token(s("Bearer "), s("xyz")), s("xyz"));
    assert_eq!(extract_token(None, s("")), None);
    assert_eq!(extract_token(None, None), None);
}

#[test]
fn missing_or_bad_token_is_never_admitted() {
    let auth = Authority::new("k".to_string());
    let e = auth.authorize(None, None, 100).err().unwrap();
    assert_eq!((e.code, e.msg.as_str()), (401, "UnAuthorized"));
    let other = Authority::new("other".to_string()).sign_at(5, 60, 100).ok().unwrap();
    let e2 = auth.authorize(Some(format!("Bearer {other}")), None, 100).err().unwrap();
    assert_eq!((e2.code, e2.msg.as_str()), (401, "UnAuthorized"));
    let own = auth.sign_at(5, 60, 100).ok().unwrap();
    let e3 = auth.authorize(None, Some(own.clone()), 200).err().unwrap();
    assert_eq!((e3.code, e3.msg.as_str()), (401, "UnAuthorized"));
    assert_eq!(auth.authorize(None, Some(own), 150).ok(), Some(5));
}

#[test]
fn identity_bound_only_when_authorized() {
    let ok = VerificationOutcome::Authorized(JwtClaims { id: 9, exp: 1 });
    assert_eq!(check_auth_id(&ok).ok(), Some(9));
    for r in [Rejection::Missing, Rejection::Expired, Rejection::Malformed, Rejection::SignatureInvalid] {
        let e = check_auth_id(&VerificationOutcome::Rejected(r)).err().unwrap();
        assert_eq!((e.code, e.msg.as_str()), (401, "UnAuthorized"));
    }
}

#[test]
fn inverted_range_is_refused_before_any_query() {
    let e = bill_list(1, s("2024-02-01"), s("2024-01-01")).err().unwrap();
    assert_eq!((e.code, e.msg.as_str()), (400, "invalid date range"));
    let e = bill_list(1, None, s("2024-01-01")).err().unwrap();
    assert_eq!(e.msg, "begin date is required");
    let e = bill_list(1, s("2024-13-01"), s("2024-01-01")).err().unwrap();
    assert_eq!(e.msg, "invalid begin date");
    let e = bill_list(1, s("2024-01-01"), None).err().unwrap();
    assert_eq!(e.msg, "end date is required");
    let e = bill_list(1, s("2024-01-01"), s("2024-02-30")).err().unwrap();
    assert_eq!(e.msg, "invalid end date");
    let q = bill_list(1, s("2024-01-05"), s("2024-01-05")).ok().unwrap();
    assert_eq!(q, ListQuery { user_id: 1, begin: date(2024, 1, 5), end: date(2024, 1, 5) });
}

#[test]
fn total_is_exact_and_skips_malformed() {
    let q = ListQuery { user_id: 1, begin: date(2024, 1, 1), end: date(2024, 1, 31) };
    let rows = vec![
        bill(1, 1, Some("0.1"), date(2024, 1, 1)),
        bill(2, 1, Some("0.2"), date(2024, 1, 31)),
        bill(3, 1, Some("abc"), date(2024, 1, 15)),
        bill(4, 2, Some("100"), date(2024, 1, 15)),
        bill(5, 1, Some("100"), date(2024, 2, 1)),
        bill(6, 1, None, date(2024, 1, 2)),
    ];
    let l = list_transactions(&q, &rows).ok().unwrap();
    let ids: Vec<i32> = l.list.iter().map(|b| b.id).collect();
    assert_eq!(ids, vec![1, 2, 3, 6]);
    let t = l.pay_amount.unwrap();
    assert_eq!(rendered(t), "0.3");
    assert_eq!(t, Amount { mantissa: 3, scale: 1 });
}

#[test]
fn total_of_mixed_scales() {
    let amts = vec![
        parse_amount("1.005").unwrap(),
        parse_amount("-2").unwrap(),
        parse_amount("0.995").unwrap(),
    ];
    let t = total_of(&amts).ok().unwrap();
    assert_eq!(rendered(t), "0.000");
    assert_eq!(rendered(total_of(&vec![]).ok().unwrap()), "0.00");
}

#[test]
fn total_overflow_is_a_server_error() {
    let big = parse_amount("79228162514264337593543950335").unwrap();
    let e = total_of(&vec![big, big]).err().unwrap();
    assert_eq!(e.code, 500);
}

#[test]
fn empty_window_has_no_total() {
    let q = ListQuery { user_id: 1, begin: date(2024, 2, 1), end: date(2024, 2, 28) };
    let rows = vec![bill(1, 1, Some("12.50"), date(2024, 1, 10))];
    let l = list_transactions(&q, &rows).ok().unwrap();
    assert!(l.list.is_empty());
    assert!(l.pay_amount.is_none());
}

#[test]
fn all_malformed_rows_total_zero() {
    let q = ListQuery { user_id: 1, begin: date(2024, 1, 1), end: date(2024, 1, 31) };
    let rows = vec![bill(1, 1, Some("x"), date(2024, 1, 10))];
    let l = list_transactions(&q, &rows).ok().unwrap();
    assert_eq!(l.list.len(), 1);
    assert_eq!(rendered(l.pay_amount.unwrap()), "0.00");
}

#[test]
fn deleting_foreign_record_looks_like_missing() {
    let mine = Some(TagRow { id: 3, user_id: 1, name: "food".to_string() });
    let theirs = Some(TagRow { id: 3, user_id: 2, name: "food".to_string() });
    assert_eq!(del_tag(1, 3, &mine).ok(), Some(3));
    let a = del_tag(1, 3, &theirs).err().unwrap();
    let b = del_tag(1, 3, &None).err().unwrap();
    assert_eq!((a.code, a.msg.clone()), (b.code, b.msg.clone()));
    assert_eq!(a.msg, "tag not found");
    let d = date(2024, 1, 1);
    assert_eq!(del_bill(1, 8, &Some(bill(8, 1, None, d))).ok(), Some(8));
    let c = del_bill(1, 8, &Some(bill(8, 2, None, d))).err().unwrap();
    let n = del_bill(1, 8, &None).err().unwrap();
    assert_eq!((c.code, c.msg.clone()), (n.code, n.msg.clone()));
    assert_eq!(c.msg, "transaction not found");
}

#[test]
fn tag_names_unique_per_user() {
    let tags = vec![TagRow { id: 1, user_id: 1, name: "food".to_string() }];
    let e = add_tag(1, s("food"), &tags).err().unwrap();
    assert_eq!((e.code, e.msg.as_str()), (409, "tag already exists"));
    let t = add_tag(2, s("food"), &tags).ok().unwrap();
    assert_eq!((t.user_id, t.name.as_str()), (2, "food"));
    assert_eq!(add_tag(1, s(""), &tags).err().unwrap().code, 400);
    assert_eq!(add_tag(1, None, &tags).err().unwrap().msg, "tag name is required");
    let blank = vec![TagRow { id: 2, user_id: 1, name: String::new() }];
    let e = add_tag(1, s(""), &blank).err().unwrap();
    assert_eq!((e.code, e.msg.as_str()), (400, "tag name is required"));
}

#[test]
fn tag_list_keeps_own_tags_in_order() {
    let tags = vec![
        TagRow { id: 1, user_id: 1, name: "a".to_string() },
        TagRow { id: 2, user_id: 2, name: "b".to_string() },
        TagRow { id: 3, user_id: 1, name: "c".to_string() },
    ];
    let ids: Vec<i32> = tag_list(1, &tags).iter().map(|t| t.id).collect();
    assert_eq!(ids, vec![1, 3]);
}

#[test]
fn registration_rules() {
    assert_eq!(registry(None, s("secret1")).err().unwrap().msg, "account is required");
    assert_eq!(registry(s(""), s("secret1")).err().unwrap().msg, "account is required");
    assert_eq!(registry(s("bob"), None).err().unwrap().msg, "password is required");
    assert_eq!(registry(s("bob"), s("")).err().unwrap().msg, "password is required");
    let e = registry(s("bob"), s("12345")).err().unwrap();
    assert_eq!((e.code, e.msg.as_str()), (400, "password must be at least 6 characters"));
    let u = registry(s("bob"), s("密码密码密码")).ok().unwrap();
    assert_eq!(u.pass_hash, format!("{:x}", md5::compute("bob:密码密码密码")));
    assert_ne!(u.pass_hash, "密码密码密码");
    assert_ne!(u.pass_hash, format!("{:x}", md5::compute("密码密码密码")));
    let users = vec![UserRow { id: 1, account: "bob".to_string(), pass: u.pass_hash.clone() }];
    let e = account_available(&"bob".to_string(), &users).err().unwrap();
    assert_eq!((e.code, e.msg.as_str()), (400, "account exists"));
    assert!(account_available(&"eve".to_string(), &users).is_ok());
}

#[test]
fn login_does_not_tell_unknown_from_wrong() {
    let auth = Authority::new("k".to_string());
    let hash = registry(s("bob"), s("secret1")).ok().unwrap().pass_hash;
    let users = vec![UserRow { id: 4, account: "bob".to_string(), pass: hash }];
    let wrong = login(s("bob"), s("secret2")).ok().unwrap();
    let unknown = login(s("eve"), s("secret1")).ok().unwrap();
    let a = login_token(&auth, &wrong, &users, 0).err().unwrap();
    let b = login_token(&auth, &unknown, &users, 0).err().unwrap();
    assert_eq!((a.code, a.msg.clone()), (b.code, b.msg.clone()));
    assert_eq!(a.msg, "invalid account or password");
    assert_eq!(login(None, s("x")).err().unwrap().msg, "account is required");
    assert_eq!(login(s("x"), None).err().unwrap().msg, "password is required");
}

#[test]
fn bill_form_rules() {
    let e = |r: Result<ledger::bill::NewBill, JsonErr>| r.err().unwrap().msg;
    assert_eq!(e(bill_add(1, None, s("c"), s("x"), s("2024-01-01"), Some(1))), "pay is required");
    assert_eq!(e(bill_add(1, s("1.2.3"), s("c"), s("x"), s("2024-01-01"), Some(1))), "invalid pay");
    assert_eq!(e(bill_add(1, s("1"), None, s("x"), s("2024-01-01"), Some(1))), "pay method is required");
    assert_eq!(e(bill_add(1, s("1"), s("c"), None, s("2024-01-01"), Some(1))), "comment is required");
    assert_eq!(e(bill_add(1, s("1"), s("c"), s("x"), None, Some(1))), "transaction date is required");
    assert_eq!(e(bill_add(1, s("1"), s("c"), s("x"), s("01/01/2024"), Some(1))), "invalid transaction date");
    assert_eq!(e(bill_add(1, s("1"), s("c"), s("x"), s("2024-01-01"), None)), "tag is required");
    let b = bill_add(1, s("1"), s("c"), s("x"), s("2024-01-01"), Some(3)).ok().unwrap();
    let foreign = Some(TagRow { id: 3, user_id: 2, name: "t".to_string() });
    let e2 = check_bill_tag(b, &foreign).err().unwrap();
    assert_eq!((e2.code, e2.msg.as_str()), (400, "invalid tag"));
}

#[test]
fn dates_parse_iso_only() {
    assert_eq!(parse_date("2024-01-10"), Some(date(2024, 1, 10)));
    assert_eq!(parse_date("2023-02-29"), None);
    assert_eq!(parse_date("2024/01/10"), None);
}

#[test]
fn error_status_and_res_error() {
    assert_eq!(JsonErr::from_error(401, "x".to_string()).status(), 401);
    assert_eq!(JsonErr::from_error(5, "x".to_string()).status(), 400);
    let e = res_error(409, "dup".to_string()).err().unwrap();
    assert_eq!((e.code, e.msg.as_str()), (409, "dup"));
}

#[test]
fn end_to_end_scenario() {
    let auth = Authority::new("server secret".to_string());
    let now = 1_704_067_200;
    let user = registry(s("alice"), s("secret1")).ok().unwrap();
    assert!(account_available(&user.account, &vec![]).is_ok());
    let users = vec![UserRow { id: 1, account: user.account.clone(), pass: user.pass_hash.clone() }];
    let creds = login(s("alice"), s("secret1")).ok().unwrap();
    let token = login_token(&auth, &creds, &users, now).ok().unwrap();
    assert_eq!(
        auth.verify_at(&token, now),
        VerificationOutcome::Authorized(JwtClaims { id: 1, exp: now + LOGIN_TTL_SECONDS })
    );
    let uid = auth.authorize(Some(format!("Bearer {token}")), None, now).ok().unwrap();
    assert_eq!(uid, 1);
    let tag = add_tag(uid, s("food"), &vec![]).ok().unwrap();
    let food = TagRow { id: 11, user_id: tag.user_id, name: tag.name };
    let draft = bill_add(uid, s("12.50"), s("cash"), s("lunch"), s("2024-01-10"), Some(11)).ok().unwrap();
    let nb = check_bill_tag(draft, &Some(food)).ok().unwrap();
    let rows = vec![BillRow {
        id: 1,
        user_id: nb.user_id,
        tag_id: nb.tag_id,
        pay: Some(rendered(nb.pay)),
        pay_method: nb.pay_method,
        comment: Some(nb.comment),
        transaction_date: nb.transaction_date,
        tag_name: Some("food".to_string()),
    }];
    let q = bill_list(uid, s("2024-01-01"), s("2024-01-31")).ok().unwrap();
    let l = list_transactions(&q, &rows).ok().unwrap();
    assert_eq!(l.list.len(), 1);
    assert_eq!(l.list[0].pay.as_deref(), Some("12.50"));
    assert_eq!(l.list[0].tag_name.as_deref(), Some("food"));
    assert_eq!(rendered(l.pay_amount.unwrap()), "12.50");
    let q2 = bill_list(uid, s("2024-02-01"), s("2024-02-28")).ok().unwrap();
    let l2 = list_transactions(&q2, &rows).ok().unwrap();
    assert!(l2.list.is_empty());
    assert!(l2.pay_amount.is_none());
}

#[test]
fn expiry_before_epoch_does_not_verify() {
    let auth = Authority::new("k".to_string());
    let token = auth.sign_at(1, 60, -100).ok().unwrap();
    assert_eq!(auth.verify_at(&token, -200), VerificationOutcome::Rejected(Rejection::Malformed));
}

#[test]
fn signing_is_deterministic_at_one_instant() {
    let a = Authority::new("same".to_string());
    let b = Authority::new("same".to_string());
    assert_eq!(a.sign_at(3, 60, 500).ok(), b.sign_at(3, 60, 500).ok());
}

#[test]
fn total_keeps_cents_and_zero_operands() {
    let amts = vec![parse_amount("12.50").unwrap()];
    assert_eq!(total_of(&amts).ok().unwrap(), Amount { mantissa: 1250, scale: 2 });
    let amts = vec![parse_amount("1.5").unwrap(), parse_amount("0").unwrap(), parse_amount("2.25").unwrap()];
    assert_eq!(total_of(&amts).ok().unwrap(), Amount { mantissa: 375, scale: 2 });
    let amts = vec![parse_amount("1.5").unwrap(), parse_amount("-1.5").unwrap(), parse_amount("7").unwrap()];
    assert_eq!(total_of(&amts).ok().unwrap(), Amount { mantissa: 7, scale: 0 });
}
