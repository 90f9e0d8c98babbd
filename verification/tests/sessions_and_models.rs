//! Session lifetimes and the storefront's plain data records.

use commercerack::models::{Customer, CustomerAddress, Order};
use commercerack::session::Session;

#[test]
fn test_session_creation() {
    let now = 1_700_000_000;
    let session = Session::new(1, 1, 3600, now);
    assert!(session.is_valid(now));
    assert_eq!(session.cid, 1);
}

#[test]
fn test_session_expiry() {
    let now = 1_700_000_000;
    let session = Session::new(1, 1, -1, now);
    assert!(!session.is_valid(now));
}

#[test]
fn session_is_valid_strictly_before_expiry() {
    let session = Session::new(42, 7, 100, 1000);
    assert_eq!(session.created_at, 1000);
    assert_eq!(session.expires_at, 1100);
    assert!(session.is_valid(1099));
    assert!(!session.is_valid(1100));
    assert!(!session.is_valid(1101));
}

#[test]
fn storefront_rows_round_trip_their_fields() {
    let addr = CustomerAddress {
        id: 0,
        cid: 1,
        mid: 1,
        label: "SHIP".to_string(),
        firstname: "Jane".to_string(),
        lastname: "Doe".to_string(),
        company: String::new(),
        address1: "123 Main St".to_string(),
        address2: String::new(),
        city: "Portland".to_string(),
        state: "OR".to_string(),
        zip: "97201".to_string(),
        country: "US".to_string(),
        phone: "555-1234".to_string(),
    };
    assert_eq!(addr.label, "SHIP");
    assert_eq!(addr.city, "Portland");
    assert_eq!(addr.zip, "97201");
    assert_eq!(addr.phone, "555-1234");

    let customer = Customer {
        cid: 9,
        mid: 1,
        email: "integration_test@example.com".to_string(),
        firstname: Some("Jane".to_string()),
        lastname: None,
        created_gmt: 1_700_000_000,
        modified_gmt: 1_700_000_000,
        passhash: None,
        passsalt: None,
    };
    assert_eq!(customer.email, "integration_test@example.com");

    let order = Order {
        orderid: "ORD-1".to_string(),
        mid: 1,
        pool: "open".to_string(),
        customer: 9,
        created_gmt: 1_700_000_000,
        modified_gmt: 1_700_000_001,
        order_total: 12994,
    };
    assert_eq!(order.order_total, 12994);
    assert_eq!(order.customer, customer.cid);
}
