use tagbox::query::{
    category_query, collect_search_options, panel_query, AdvancedSearchFields, SearchFormError,
};

#[test]
fn empty_form_searches_everything() {
    let f = AdvancedSearchFields::new();
    assert_eq!(f.build_advanced_query(), "*");
    assert!(f.include_content);
    assert_eq!(f.validate_search_options(), Err(SearchFormError::NoCriteria));
    assert_eq!(
        SearchFormError::NoCriteria.message(),
        "Please provide at least one search criterion"
    );
}

#[test]
fn conditions_joined_with_and() {
    let mut f = AdvancedSearchFields::new();
    f.title = "rust".to_string();
    f.authors = "Ann, , Bob".to_string();
    f.year_from = "2001".to_string();
    f.year_to = "x".to_string();
    f.tags = "t1".to_string();
    f.category1 = Some("Books".to_string());
    f.content = "borrow".to_string();
    assert_eq!(
        f.build_advanced_query(),
        "rust in title AND Ann in authors AND Bob in authors AND year >= 2001 AND t1 in tags AND category1:Books AND borrow in content"
    );
    f.exact_match = true;
    f.include_content = false;
    f.year_to = "2010".to_string();
    assert_eq!(
        f.build_advanced_query(),
        "\"rust\" in title AND \"Ann\" in authors AND \"Bob\" in authors AND year >= 2001 AND year <= 2010 AND \"t1\" in tags AND category1:Books"
    );
    assert_eq!(f.validate_search_options(), Ok(()));
}

#[test]
fn reversed_years_are_refused() {
    let mut f = AdvancedSearchFields::new();
    f.year_from = "2010".to_string();
    f.year_to = "2000".to_string();
    assert_eq!(f.validate_search_options(), Err(SearchFormError::YearRange));
    assert_eq!(
        SearchFormError::YearRange.message(),
        "Year range is invalid: 'from' year cannot be greater than 'to' year"
    );
    f.year_to = "2010".to_string();
    assert_eq!(f.validate_search_options(), Ok(()));
    assert_eq!(f.build_advanced_query(), "year >= 2010 AND year <= 2010");
}

#[test]
fn quick_query_becomes_title() {
    let mut f = AdvancedSearchFields::new();
    f.set_search_query("*");
    assert_eq!(f.title, "");
    f.set_search_query("");
    assert_eq!(f.title, "");
    f.set_search_query("dune");
    assert_eq!(f.title, "dune");
    f.clear_all_fields();
    assert_eq!(f.title, "");
    assert!(f.include_content);
}

#[test]
fn search_options_of_advanced_search() {
    let o = collect_search_options();
    assert_eq!(o.offset, 0);
    assert_eq!(o.limit, 100);
    assert_eq!(o.sort_by.as_deref(), Some("updated_at"));
    assert_eq!(o.sort_direction.as_deref(), Some("DESC"));
    assert!(!o.include_deleted);
}

#[test]
fn category_filters() {
    assert_eq!(category_query(""), "*");
    assert_eq!(category_query("All Files"), "*");
    assert_eq!(category_query("Books/Rust"), "category:Books/Rust");
    assert_eq!(panel_query("a,b", "t", "x"), "tag:a,b title:t author:x");
}

fn filed(c1: &str) -> tagbox::library::StoredFile {
    tagbox::library::StoredFile {
        id: "id".to_string(),
        title: "t".to_string(),
        original_filename: "t.pdf".to_string(),
        path: "/t.pdf".to_string(),
        category1: c1.to_string(),
        category2: None,
        category3: None,
        tags: vec![],
        authors: vec![],
        year: None,
        publisher: None,
        source: None,
        summary: None,
        created_at: String::new(),
        updated_at: String::new(),
        file_size_bytes: 0,
    }
}

#[test]
fn first_level_choices() {
    let files = vec![filed("Tech"), filed("Books"), filed("Tech"), filed("Art")];
    assert_eq!(
        tagbox::query::category_choices(&files, "Any Category 1"),
        vec!["Any Category 1", "Art", "Books", "Tech"]
    );
    assert_eq!(tagbox::query::category_choices(&Vec::new(), "Select Category 1"), vec!["Select Category 1"]);
}
