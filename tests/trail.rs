use wikitrail::article::Article;
use wikitrail::page::{href_title, next_article, pick_link};
use wikitrail::trail::Trail;
use wikitrail::walk::{FetchError, Walk};

fn hop(name: &str) -> Result<Article, FetchError> {
    Ok(Article::new(name.to_string()))
}

fn titles(trail: &Trail) -> Vec<String> {
    trail.articles().iter().map(|a| a.name().to_string()).collect()
}

#[test]
fn scenario_reaches_terminal() {
    let mut trail = Trail::new("Dog".to_string());
    let r = trail.resolve(&vec![hop("Domestication"), hop("Philosophy")]);
    assert_eq!(r, Ok(Walk::Terminated));
    assert_eq!(titles(&trail), vec!["Dog", "Domestication", "Philosophy"]);
    assert_eq!(trail.render(), "- Dog\n- Domestication\n- Philosophy\n");
    assert_eq!(trail.render().lines().count(), 3);
}

#[test]
fn scenario_repeats_start() {
    let mut trail = Trail::new("Loop".to_string());
    let r = trail.resolve(&vec![hop("Cycle"), hop("Loop")]);
    assert_eq!(r, Ok(Walk::Terminated));
    assert_eq!(titles(&trail), vec!["Loop", "Cycle", "Loop"]);
    assert_eq!(trail.render(), "- Loop\n- Cycle\n- Loop\n");
}

#[test]
fn scenario_start_is_terminal() {
    let mut trail = Trail::new("Philosophy".to_string());
    let r = trail.resolve(&vec![hop("Reason")]);
    assert_eq!(r, Ok(Walk::Running));
    assert_eq!(titles(&trail), vec!["Philosophy", "Reason"]);
    let r = trail.resolve(&vec![hop("Logic"), hop("Truth"), hop("Philosophy")]);
    assert_eq!(r, Ok(Walk::Terminated));
    assert_eq!(titles(&trail), vec!["Philosophy", "Reason", "Logic", "Truth", "Philosophy"]);
}

#[test]
fn scenario_first_load_fails() {
    let mut trail = Trail::new("Dog".to_string());
    let r = trail.resolve(&vec![Err(FetchError::Transport), hop("Philosophy")]);
    assert_eq!(r, Err(FetchError::Transport));
    assert_eq!(titles(&trail), vec!["Dog"]);
    assert_eq!(trail.state(), Walk::Running);
}

#[test]
fn terminal_on_first_hop_gives_two_articles() {
    let mut trail = Trail::new("Dog".to_string());
    let r = trail.resolve(&vec![hop("Philosophy"), hop("Ignored")]);
    assert_eq!(r, Ok(Walk::Terminated));
    assert_eq!(trail.len(), 2);
    assert_eq!(trail.last().name(), "Philosophy");
}

#[test]
fn repeat_of_an_earlier_article_stops_the_walk() {
    let mut trail = Trail::new("A".to_string());
    let r = trail.resolve(&vec![hop("B"), hop("C"), hop("D"), hop("B"), hop("E")]);
    assert_eq!(r, Ok(Walk::Terminated));
    assert_eq!(titles(&trail), vec!["A", "B", "C", "D", "B"]);
}

#[test]
fn self_loop_is_a_repeat() {
    let mut trail = Trail::new("Mirror".to_string());
    assert!(trail.step(Article::new("Mirror".to_string())));
    assert_eq!(titles(&trail), vec!["Mirror", "Mirror"]);
    assert_eq!(trail.state(), Walk::Terminated);
}

#[test]
fn titles_compare_exactly() {
    let mut trail = Trail::new("dog".to_string());
    assert!(!trail.step(Article::new("Dog".to_string())));
    assert!(!trail.step(Article::new("philosophy".to_string())));
    assert_eq!(trail.state(), Walk::Running);
    assert!(trail.step(Article::new("Philosophy".to_string())));
}

#[test]
fn failure_after_some_hops_keeps_them() {
    let mut trail = Trail::new("Dog".to_string());
    let r = trail.resolve(&vec![hop("Wolf"), hop("Canis"), Err(FetchError::Status), hop("Philosophy")]);
    assert_eq!(r, Err(FetchError::Status));
    assert_eq!(titles(&trail), vec!["Dog", "Wolf", "Canis"]);
    let r = trail.resolve(&vec![Err(FetchError::NoLink)]);
    assert_eq!(r, Err(FetchError::NoLink));
    let r = trail.resolve(&vec![Err(FetchError::Markup)]);
    assert_eq!(r, Err(FetchError::Markup));
    assert_eq!(trail.len(), 3);
}

#[test]
fn terminated_walk_takes_no_more_steps() {
    let mut trail = Trail::new("Dog".to_string());
    assert_eq!(trail.resolve(&vec![hop("Philosophy")]), Ok(Walk::Terminated));
    assert_eq!(trail.resolve(&vec![hop("More"), Err(FetchError::Transport)]), Ok(Walk::Terminated));
    assert!(trail.step(Article::new("Other".to_string())));
    assert_eq!(titles(&trail), vec!["Dog", "Philosophy"]);
}

#[test]
fn running_out_of_responses_leaves_walk_running() {
    let mut trail = Trail::new("Dog".to_string());
    assert_eq!(trail.resolve(&vec![]), Ok(Walk::Running));
    assert_eq!(trail.resolve(&vec![hop("Wolf")]), Ok(Walk::Running));
    assert_eq!(titles(&trail), vec!["Dog", "Wolf"]);
}

#[test]
fn contains_scans_whole_history() {
    let mut trail = Trail::new("A".to_string());
    trail.step(Article::new("B".to_string()));
    trail.step(Article::new("C".to_string()));
    assert!(trail.contains(&Article::new("A".to_string())));
    assert!(trail.contains(&Article::new("C".to_string())));
    assert!(!trail.contains(&Article::new("D".to_string())));
}

#[test]
fn new_trail_holds_start() {
    let trail = Trail::new("Dog".to_string());
    assert_eq!(trail.len(), 1);
    assert_eq!(trail.last().name(), "Dog");
    assert_eq!(trail.state(), Walk::Running);
    assert_eq!(trail.render(), "- Dog\n");
}

#[test]
fn article_address_and_equality() {
    let a = Article::new("Albert_Einstein".to_string());
    assert_eq!(a.wiki_url(), "https://en.wikipedia.org/wiki/Albert_Einstein");
    assert_eq!(a.name(), "Albert_Einstein");
    assert!(a == a.duplicate());
    assert!(a != Article::new("Albert_einstein".to_string()));
}

#[test]
fn page_selection_takes_first_article_link() {
    let page = "<html><body><p>A <a href=\"/wiki/Mammal\">mammal</a> and <a href=\"/wiki/Wolf\">wolf</a>.</p></body></html>";
    assert_eq!(next_article(page).unwrap().name(), "Mammal");
    assert_eq!(next_article(page), next_article(page));
}

#[test]
fn page_selection_skips_non_article_links() {
    let page = "<p><a href=\"#cite_note-1\">[1]</a><a>bare</a>\
        <a href=\"/wiki/File:Dog.jpg\">file</a><a href=\"https://example.org/wiki/Dog\">away</a>\
        <a href=\"/wiki/Help:IPA/English\">ipa</a><a href=\"/wiki/Dog#History\">section</a>\
        <a href=\"/wiki/\">empty</a><a href=\"/wiki/Carnivora\">order</a></p>";
    assert_eq!(next_article(page).unwrap().name(), "Carnivora");
}

#[test]
fn page_selection_ignores_links_outside_paragraphs() {
    let page = "<div><a href=\"/wiki/Sidebar\">side</a></div><p>Text <a href=\"/wiki/Inside\">in</a></p>";
    assert_eq!(next_article(page).unwrap().name(), "Inside");
}

#[test]
fn page_without_qualifying_link_is_an_error() {
    assert_eq!(next_article(""), Err(FetchError::NoLink));
    assert_eq!(next_article("<p>No links here.</p><a href=\"/wiki/Dog\">outside</a>"), Err(FetchError::NoLink));
    assert_eq!(next_article("<p><a href=\"/wiki/Category:Dogs\">c</a></p>"), Err(FetchError::NoLink));
}

#[test]
fn href_title_reads_article_links() {
    assert_eq!(href_title("/wiki/Cat"), Some("Cat".to_string()));
    assert_eq!(href_title("/wiki/Caf\u{e9}_au_lait"), Some("Caf\u{e9}_au_lait".to_string()));
    assert_eq!(href_title("/wiki/"), None);
    assert_eq!(href_title("/wik/Cat"), None);
    assert_eq!(href_title("/wiki/Cat#Diet"), None);
    assert_eq!(href_title("/wiki/Talk:Cat"), None);
    assert_eq!(href_title(""), None);
}

#[test]
fn pick_link_takes_first_qualifying_href() {
    let hrefs = vec![None, Some("#x".to_string()), Some("/wiki/Fox".to_string()), Some("/wiki/Hen".to_string())];
    assert_eq!(pick_link(&hrefs).unwrap().name(), "Fox");
    assert_eq!(pick_link(&vec![]), Err(FetchError::NoLink));
    assert_eq!(pick_link(&vec![None, Some("/w/index.php".to_string())]), Err(FetchError::NoLink));
}
