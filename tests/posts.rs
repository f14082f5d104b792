use blog::errors::ServiceError;
use blog::posts::{
    blank, delete_outcome, found_or_not, page_window, CreatePost, PageWindow, Post, Timestamp,
    UpdatePost, LAST_PAGE, PAGE_SIZE,
};

fn sample_post() -> Post {
    Post {
        id: 7,
        title: "first".to_string(),
        description: "desc".to_string(),
        body: "hello".to_string(),
        tags: vec!["rust".to_string(), "web".to_string()],
        thumbnail: "http://img/1.png".to_string(),
        thumbnail_blur: None,
        created_at: Timestamp { secs: 1_700_000_000, nanos: 5 },
    }
}

fn sample_create() -> CreatePost {
    CreatePost {
        title: "t".to_string(),
        description: String::new(),
        body: "b".to_string(),
        tags: vec![],
        thumbnail: "http://img/2.png".to_string(),
        thumbnail_blur: None,
    }
}

#[test]
fn pages_are_twelve_rows_apart() {
    assert_eq!(page_window(Some(1)), PageWindow { limit: 12, offset: 0 });
    assert_eq!(page_window(Some(2)), PageWindow { limit: 12, offset: 12 });
    assert_eq!(page_window(Some(5)), PageWindow { limit: 12, offset: 48 });
    assert_eq!(PAGE_SIZE, 12);
}

#[test]
fn absent_or_non_positive_page_is_first_page() {
    let first = page_window(Some(1));
    assert_eq!(page_window(None), first);
    assert_eq!(page_window(Some(0)), first);
    assert_eq!(page_window(Some(-3)), first);
    assert_eq!(page_window(Some(i64::MIN)), first);
}

#[test]
fn largest_page_offset_fits() {
    let last = page_window(Some(LAST_PAGE));
    assert_eq!(last.offset, (LAST_PAGE - 1) * 12);
    assert_eq!(page_window(Some(i64::MAX)), last);
}

#[test]
fn blank_means_whitespace_only() {
    assert!(blank(""));
    assert!(blank("  \t\n"));
    assert!(blank("\u{3000}\u{a0}"));
    assert!(!blank(" a "));
}

#[test]
fn valid_post_passes_checks() {
    assert_eq!(sample_create().validate(), Ok(()));
}

#[test]
fn blank_title_is_rejected_first() {
    let mut dto = sample_create();
    dto.title = "   ".to_string();
    dto.body = String::new();
    assert_eq!(
        dto.validate(),
        Err(ServiceError::BadRequest("제목을 입력해주세요".to_string()))
    );
}

#[test]
fn blank_body_is_rejected() {
    let mut dto = sample_create();
    dto.body = "\n\t".to_string();
    assert_eq!(
        dto.validate(),
        Err(ServiceError::BadRequest("본문을 입력해주세요".to_string()))
    );
}

#[test]
fn blank_thumbnail_is_rejected() {
    let mut dto = sample_create();
    dto.thumbnail = String::new();
    assert_eq!(
        dto.validate(),
        Err(ServiceError::BadRequest("대표 이미지를 설정해주세요".to_string()))
    );
}

#[test]
fn empty_update_keeps_post() {
    let upd = UpdatePost { title: None, body: None, description: None };
    assert_eq!(upd.apply(sample_post()), sample_post());
}

#[test]
fn update_changes_only_given_field() {
    let upd = UpdatePost { title: Some("renamed".to_string()), body: None, description: None };
    let got = upd.apply(sample_post());
    let mut want = sample_post();
    want.title = "renamed".to_string();
    assert_eq!(got, want);
}

#[test]
fn update_of_all_fields() {
    let upd = UpdatePost {
        title: Some("a".to_string()),
        body: Some("b".to_string()),
        description: Some("c".to_string()),
    };
    let got = upd.apply(sample_post());
    assert_eq!(got.title, "a");
    assert_eq!(got.body, "b");
    assert_eq!(got.description, "c");
    assert_eq!(got.id, 7);
    assert_eq!(got.tags, vec!["rust".to_string(), "web".to_string()]);
}

#[test]
fn missing_row_is_not_found() {
    assert_eq!(found_or_not(None), Err(ServiceError::NotFound));
    assert_eq!(found_or_not(Some(sample_post())), Ok(sample_post()));
}

#[test]
fn delete_of_absent_id_succeeds() {
    assert_eq!(delete_outcome(Ok(0)), Ok(()));
    assert_eq!(delete_outcome(Ok(1)), Ok(()));
    assert_eq!(
        delete_outcome(Err("broken pipe".to_string())),
        Err(ServiceError::InternalServerError("broken pipe".to_string()))
    );
}
