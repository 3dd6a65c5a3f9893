use monarch_store::reviews::{
    backend_disabled, new_review, review_submission, reviews_endpoint, reviews_for_app,
};

#[test]
fn reviews_are_filtered_by_app() {
    let reviews = vec![
        new_review("org.gimp.GIMP", 5, "Great", "Works", "ann", 10),
        new_review("firefox", 4, "Good", "Fast", "bob", 11),
        new_review("org.gimp.GIMP", 3, "Ok", "Slow", "cy", 12),
    ];
    let gimp = reviews_for_app(reviews.clone(), "org.gimp.GIMP");
    assert_eq!(gimp.len(), 2);
    assert_eq!(gimp[0].user_display, "ann");
    assert_eq!(gimp[1].date_created, 12);
    assert!(reviews_for_app(reviews, "vlc").is_empty());
}

#[test]
fn submissions_are_trimmed_and_clamped() {
    let s = review_submission("  firefox ", 9, " nice ", " me ");
    assert_eq!(s.package_name, "firefox");
    assert_eq!(s.rating, 5);
    assert_eq!(s.comment, "nice");
    assert_eq!(s.user_name, "me");
    assert_eq!(review_submission("a", 0, "", "").rating, 1);
    assert_eq!(review_submission("a", 3, "", "").rating, 3);
}

#[test]
fn endpoint_and_disable_flag() {
    assert_eq!(reviews_endpoint("https://x.supabase.co//"), "https://x.supabase.co/rest/v1/reviews");
    assert_eq!(reviews_endpoint("https://x.supabase.co"), "https://x.supabase.co/rest/v1/reviews");
    assert!(backend_disabled("1"));
    assert!(backend_disabled("TRUE"));
    assert!(backend_disabled("True"));
    assert!(!backend_disabled("yes"));
    assert!(!backend_disabled("0"));
    assert!(!backend_disabled("truee"));
}
