use dnguyen_blog::cms::{App, Message, StateError};
use dnguyen_blog::datetime::UtcDateTime;
use dnguyen_blog::models::BlogPost;

fn post(title: &str) -> BlogPost {
    BlogPost {
        id: 1,
        created_at: UtcDateTime::new(2021, 1, 1, 0, 0, 0, 0).unwrap(),
        updated_at: None,
        published_at: None,
        publish_state: "draft".to_string(),
        body: None,
        title: title.to_string(),
        slug: title.to_lowercase(),
    }
}

#[test]
fn content_manager_lists_titles() {
    let mut app = App::from_loaded(Ok(vec![post("First"), post("Second")]));
    assert_eq!(vec!["First".to_string(), "Second".to_string()], app.view_lines());
    app.update(Message::Dummy);
    assert_eq!(vec!["First".to_string(), "Second".to_string()], app.view_lines());
    assert_eq!("DNguyen CMS", app.title());
}

#[test]
fn content_manager_waits_when_loading_fails() {
    let app = App::from_loaded(Err(StateError::LoadingError));
    assert!(matches!(app, App::Loading));
    assert_eq!(vec!["Test".to_string()], app.view_lines());
}
