use monarch_store::distro_context::DistroContext;
use monarch_store::repo_choice::{choose_repo_candidate, repo_score_of};

fn ctx(id: &str) -> DistroContext {
    DistroContext::new(Some(&format!("ID={}\n", id)), false, false, false, vec![])
}

#[test]
fn repo_scores_prefer_native_then_official() {
    let cachy = ctx("cachyos");
    assert_eq!(repo_score_of(&cachy, "cachyos-v3"), 300);
    assert_eq!(repo_score_of(&cachy, "Extra"), 220);
    assert_eq!(repo_score_of(&cachy, "chaotic-aur"), 150);
    assert_eq!(repo_score_of(&cachy, "endeavouros"), 200);
    let arch = ctx("arch");
    assert_eq!(repo_score_of(&arch, "cachyos-v3"), 200);
    assert_eq!(repo_score_of(&ctx("endeavouros"), "endeavouros"), 300);
    assert_eq!(repo_score_of(&ctx("manjaro"), "manjaro-extra"), 300);
    assert_eq!(repo_score_of(&ctx("garuda"), "garuda"), 300);
}

#[test]
fn candidate_choice_follows_installed_repo_then_score() {
    let names = vec!["chaotic-aur".to_string(), "extra".to_string(), "core".to_string()];
    let arch = ctx("arch");
    // equal best scores: the last of them wins
    assert_eq!(choose_repo_candidate(&names, None, &arch), Some(2));
    // the recorded database wins when it carries the package
    assert_eq!(choose_repo_candidate(&names, Some("chaotic-aur"), &arch), Some(0));
    // a recorded database that does not carry it falls back to the score
    assert_eq!(choose_repo_candidate(&names, Some("multilib"), &arch), Some(2));
    let cachy = ctx("cachyos");
    let names = vec!["cachyos-v3".to_string(), "extra".to_string()];
    assert_eq!(choose_repo_candidate(&names, None, &cachy), Some(0));
    assert_eq!(choose_repo_candidate(&Vec::new(), None, &cachy), None);
}
