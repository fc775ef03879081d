use p2p_books::model::{Book, ListMode, ListRequest, ListResponse};

fn book() -> Book {
    Book {
        id: 7,
        title: "Dune".to_string(),
        genre: "Science fiction".to_string(),
        author: "Frank Herbert".to_string(),
        rating: "5/5".to_string(),
        review: "A classic.".to_string(),
        public: true,
    }
}

#[test]
fn a_copy_of_a_record_equals_it() {
    let record = book();
    let copy = record.clone();
    assert_eq!(copy, record);
    assert_eq!(copy.id, 7);
    assert_eq!(copy.author, "Frank Herbert");
    assert!(copy.public);
}

#[test]
fn a_copy_of_a_request_equals_it() {
    for mode in [ListMode::ALL, ListMode::One("12D3KooWOther".to_string()), ListMode::One(String::new())] {
        let request = ListRequest { mode };
        assert_eq!(request.clone(), request);
    }
    assert_ne!(
        ListRequest { mode: ListMode::ALL },
        ListRequest { mode: ListMode::One("ALL".to_string()) }
    );
}

#[test]
fn a_copy_of_a_response_equals_it() {
    let response = ListResponse {
        mode: ListMode::ALL,
        data: vec![book(), Book { id: 8, public: false, ..book() }],
        receiver: "12D3KooWOther".to_string(),
    };
    let copy = response.clone();
    assert_eq!(copy, response);
    assert_eq!(copy.data.len(), 2);
    assert_eq!(copy.data[1].id, 8);
}
