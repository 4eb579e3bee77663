use argon2::password_hash::PasswordHash;
use selfblog::blog::Blog;
use selfblog::models::{BlogPost, DatabaseUser, Password, UserError};

#[test]
fn generate_hashes_password() {
    let user = DatabaseUser::generate(b"secret").unwrap();
    assert!(user.hash.starts_with("$argon2id$"));
    assert!(!user.hash.contains("secret"));
}

#[test]
fn hash_verifies_and_rejects() {
    let hasher = Password::new();
    let hash = hasher.hash_password(b"pw").unwrap();
    let parsed = PasswordHash::new(&hash).unwrap();
    assert!(hasher.verify_password(b"pw", parsed).is_ok());
    let parsed = PasswordHash::new(&hash).unwrap();
    assert!(Password::new().verify_password(b"other", parsed).is_err());
}

#[test]
fn from_hash_keeps_hash_or_fails() {
    let ok = DatabaseUser::from_hash(Ok("h".to_string())).unwrap();
    assert_eq!(ok.hash, "h");
    let err = DatabaseUser::from_hash(Err(argon2::password_hash::Error::Password));
    assert!(matches!(err, Err(UserError::HashFailed)));
}

fn blog(n: usize) -> Blog {
    let posts = (0..n)
        .map(|i| {
            (
                i.to_string(),
                BlogPost { title: format!("t{i}"), description: String::new(), path: format!("p{i}") },
            )
        })
        .collect();
    Blog::new(posts)
}

#[test]
fn pages_of_ten() {
    let b = blog(25);
    assert_eq!(b.size(), 25);
    assert_eq!(b.page_bounds(1), Some((0, 10)));
    assert_eq!(b.page_bounds(3), Some((20, 25)));
    assert_eq!(b.page_bounds(4), None);
    assert_eq!(b.page_bounds(0), None);
    let (from, to) = b.page_bounds(3).unwrap();
    let page = b.take_articles(from, to);
    assert_eq!(page.len(), 5);
    assert_eq!(page[0].1.title, "t20");
}

#[test]
fn page_of_nine_posts() {
    let b = blog(9);
    assert_eq!(b.page_bounds(1), Some((0, 9)));
    assert_eq!(blog(0).page_bounds(1), Some((0, 0)));
    assert_eq!(blog(10).page_bounds(2), Some((10, 10)));
}
