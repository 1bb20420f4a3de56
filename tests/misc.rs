use lunch_list::api::{AuthApi, ListApi};
use lunch_list::list::{creates_list, List, ListQuery, ListType};
use lunch_list::token_agent::{TokenReply, TokenRequest, TokenState};

#[test]
fn query_windows() {
    assert_eq!(ListQuery::new(None, None, false).to_range(), (0, 19));
    assert_eq!(ListQuery::new(Some(5), Some(200), false).to_range(), (5, 104));
    assert_eq!(ListQuery::new(Some(5), Some(10), true).to_range(), (5, 14));
    assert_eq!(ListQuery::new(None, Some(0), false).to_range(), (0, 0));
    assert_eq!(ListQuery::new(Some(3), Some(0), false).to_range(), (3, 2));
    assert!(ListQuery::new(None, None, true).rev());
    assert!(!ListQuery::new(None, None, false).rev());
}

#[test]
fn list_types() {
    assert_eq!(ListType::parse("lunch"), Some(ListType::Lunch));
    assert_eq!(ListType::parse("dinner"), Some(ListType::Dinner));
    assert_eq!(ListType::parse("Lunch"), None);
    assert_eq!("dinner".parse::<ListType>(), Ok(ListType::Dinner));
    assert_eq!("brunch".parse::<ListType>(), Err(()));
    assert_eq!(ListType::Lunch.as_str(), "lunch");
    assert_eq!(ListType::Dinner.as_str(), "dinner");
}

#[test]
fn list_creation_rule() {
    assert!(creates_list(&vec![], ListType::Lunch));
    assert!(creates_list(&vec![ListType::Dinner], ListType::Lunch));
    assert!(!creates_list(&vec![ListType::Lunch], ListType::Lunch));
    assert!(!creates_list(&vec![ListType::Lunch, ListType::Dinner], ListType::Lunch));
}

#[test]
fn api_paths() {
    assert_eq!(AuthApi::Login.path(), "/api/auth/login");
    assert_eq!(AuthApi::Refresh.path(), "/api/auth/refresh");
    assert_eq!(AuthApi::Logout.path(), "/api/auth/logout");
    assert_eq!(ListApi::GetAll.path(), "/api/list");
}

#[test]
fn token_keeper() {
    let mut t = TokenState::new();
    assert!(matches!(t.handle_input(TokenRequest::GetToken), TokenReply::Silent));
    assert!(matches!(
        t.handle_input(TokenRequest::UpdateToken("a".to_string())),
        TokenReply::Broadcast(ref s) if s == "a"
    ));
    assert!(matches!(t.handle_input(TokenRequest::GetToken), TokenReply::Respond(ref s) if s == "a"));
    assert_eq!(t.token, Some("a".to_string()));
}

#[test]
fn list_from_stored_fields() {
    let l = List::from_hash(3, Some("lunch"), Some("2020-05-01")).unwrap();
    assert_eq!(l.id, 3);
    assert_eq!(l.list_type, ListType::Lunch);
    assert_eq!(l.date, 737546);
    assert!(l.size.is_none() && l.users.is_none());
    assert_eq!(List::from_hash(1, Some("dinner"), Some("0001-01-01")).unwrap().date, 1);
    assert!(List::from_hash(3, None, None).is_none());
    assert!(List::from_hash(3, Some("brunch"), Some("2020-05-01")).is_none());
    assert!(List::from_hash(3, Some("lunch"), Some("2020-13-01")).is_none());
    assert!(List::from_hash(3, Some("lunch"), Some("01/05/2020")).is_none());
    let l = l.with_size(4);
    assert_eq!(l.size, Some(4));
    let l = l.with_users(vec!["alice".to_string()]);
    assert_eq!(l.users, Some(vec!["alice".to_string()]));
    assert_eq!(l.size, Some(4));
}
