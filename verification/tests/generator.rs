use bruteforce::generator::{param_combination, plan_param_sets};
use bruteforce::wordlist::Wordlist;

fn wl(name: &str, values: &[&str]) -> (String, Vec<String>) {
    (name.to_string(), values.iter().map(|v| v.to_string()).collect())
}

fn pair(k: &str, v: &str) -> (String, String) {
    (k.to_string(), v.to_string())
}

#[test]
fn product_count_two_lists() {
    let params = vec![wl("a", &["1", "2"]), wl("b", &["x", "y", "z"])];
    let combos = param_combination(params, 0, Vec::new());
    assert_eq!(combos.len(), 6);
}

#[test]
fn product_count_three_lists() {
    let params = vec![wl("a", &["1", "2"]), wl("b", &["x", "y", "z"]), wl("c", &["p"])];
    let combos = param_combination(params, 0, Vec::new());
    assert_eq!(combos.len(), 6);
}

#[test]
fn empty_wordlist_kills_product() {
    let params = vec![wl("a", &["1", "2"]), wl("b", &[])];
    let combos = param_combination(params, 0, Vec::new());
    assert_eq!(combos.len(), 0);
}

#[test]
fn zero_wordlists_give_one_empty_set() {
    let combos = param_combination(Vec::new(), 0, Vec::new());
    assert_eq!(combos.len(), 1);
    assert!(combos[0].is_empty());
}

#[test]
fn odometer_order_two_by_two() {
    let params = vec![wl("A", &["a1", "a2"]), wl("B", &["b1", "b2"])];
    let combos = param_combination(params, 0, Vec::new());
    assert_eq!(
        combos,
        vec![
            vec![pair("A", "a1"), pair("B", "b1")],
            vec![pair("A", "a1"), pair("B", "b2")],
            vec![pair("A", "a2"), pair("B", "b1")],
            vec![pair("A", "a2"), pair("B", "b2")],
        ]
    );
}

#[test]
fn last_wordlist_varies_fastest() {
    let params = vec![wl("a", &["1", "2"]), wl("b", &["x", "y", "z"])];
    let combos = param_combination(params, 0, Vec::new());
    let values: Vec<(String, String)> =
        combos.iter().map(|c| (c[0].1.clone(), c[1].1.clone())).collect();
    assert_eq!(
        values,
        vec![
            ("1".to_string(), "x".to_string()),
            ("1".to_string(), "y".to_string()),
            ("1".to_string(), "z".to_string()),
            ("2".to_string(), "x".to_string()),
            ("2".to_string(), "y".to_string()),
            ("2".to_string(), "z".to_string()),
        ]
    );
}

#[test]
fn nonzero_start_index_skips_earlier_lists() {
    let params = vec![wl("a", &["1", "2"]), wl("b", &["x"])];
    let combos = param_combination(params, 1, Vec::new());
    assert_eq!(combos, vec![vec![pair("b", "x")]]);
}

#[test]
fn current_prefix_is_kept() {
    let params = vec![wl("b", &["x", "y"])];
    let combos = param_combination(params, 0, vec![pair("fixed", "v")]);
    assert_eq!(
        combos,
        vec![
            vec![pair("fixed", "v"), pair("b", "x")],
            vec![pair("fixed", "v"), pair("b", "y")],
        ]
    );
}

#[test]
fn literal_parameters_take_precedence_over_wordlists() {
    let raw = vec![wl("a", &["1", "2"])];
    let lists = Wordlist::from(&raw, false);
    let sets = plan_param_sets(Some(vec![pair("q", "x")]), Some(lists));
    assert_eq!(sets, vec![vec![pair("q", "x")]]);
}

#[test]
fn no_parameter_source_plans_one_bare_request() {
    let sets = plan_param_sets(None, None);
    assert_eq!(sets, vec![Vec::new()]);
}

#[test]
fn wordlists_drive_generation_when_no_literals_given() {
    let raw = vec![wl("a", &["1", "2"])];
    let lists = Wordlist::from(&raw, false);
    let sets = plan_param_sets(None, Some(lists));
    assert_eq!(sets, vec![vec![pair("a", "1")], vec![pair("a", "2")]]);
}

#[test]
fn rerun_is_identical() {
    let params = vec![wl("a", &["1", "2"]), wl("b", &["x", "y"])];
    let first = param_combination(params.clone(), 0, Vec::new());
    let second = param_combination(params, 0, Vec::new());
    assert_eq!(first, second);
}
