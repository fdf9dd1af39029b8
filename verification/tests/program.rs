use soap::{pyramid, run, PyramidInfo};

fn tokens(list: &[&str]) -> Vec<String> {
    list.iter().map(|token| token.to_string()).collect()
}

fn written(list: &[&str]) -> String {
    run(&tokens(list))
}

const USAGE: &str = "Usage: soap [OPTION..]\n\n  -s, --size HEIGHT       Set the vertical size of the pyramid\n  -c, --character CHAR    Set the character to be used in the pyramid\n  -h, --help              Display this help and exit\n";

const TEN_STARS: &str = "         *\n        ***\n       *****\n      *******\n     *********\n    ***********\n   *************\n  ***************\n *****************\n*******************\n";

#[test]
fn run_without_options_draws_ten_rows_of_stars() {
    assert_eq!(written(&[]), TEN_STARS);
}

#[test]
fn run_with_size_zero_writes_nothing() {
    assert_eq!(written(&["-s", "0"]), "");
}

#[test]
fn run_with_size_and_character() {
    assert_eq!(written(&["--character", "*", "--size", "3"]), "  *\n ***\n*****\n");
    assert_eq!(written(&["-s", "2", "-c", "o"]), " o\nooo\n");
}

#[test]
fn run_with_the_largest_size() {
    let text = written(&["--size", "4096"]);
    assert_eq!(text.lines().count(), 4096);
    assert_eq!(text, pyramid(&PyramidInfo { size: 4096, character: '*' }));
}

#[test]
fn run_with_a_size_above_the_limit_warns_and_draws_the_size_before() {
    let expected =
        format!("Invalid size. Please use a number between 1 and 4096\n{}", TEN_STARS);
    assert_eq!(written(&["--size", "4097"]), expected);
    assert_eq!(
        written(&["--size", "4097", "--size", "2"]),
        "Invalid size. Please use a number between 1 and 4096\n *\n***\n"
    );
    assert_eq!(
        written(&["--size", "2", "--size", "4097", "-c", "x"]),
        "Invalid size. Please use a number between 1 and 4096\n x\nxxx\n"
    );
}

#[test]
fn run_with_a_size_that_is_no_number_draws_nothing() {
    assert_eq!(
        written(&["--size", "abc"]),
        "Invalid size. Please use a number between 1 and 4096\n"
    );
    assert_eq!(
        written(&["--size", "abc", "--size", "3"]),
        "Invalid size. Please use a number between 1 and 4096\n"
    );
}

#[test]
fn run_with_a_long_fill_draws_nothing() {
    assert_eq!(written(&["--character", "ab"]), "Please only use one character.\n");
}

#[test]
fn run_with_missing_values() {
    assert_eq!(written(&["-s"]), "No size found. Need a size after '-s'.\n");
    assert_eq!(written(&["--size"]), "No size found. Need a size after '-s'.\n");
    assert_eq!(written(&["-c"]), "No character found. Need a character after '-c'.\n");
    assert_eq!(written(&["--character"]), "No character found. Need a character after '-c'.\n");
}

#[test]
fn run_with_help_writes_only_the_usage() {
    assert_eq!(written(&["-h"]), USAGE);
    assert_eq!(written(&["--help"]), USAGE);
    assert_eq!(written(&["-s", "5", "-h"]), USAGE);
    assert_eq!(written(&["-h", "-s", "5"]), USAGE);
    assert_eq!(written(&["-c", "x", "-s", "5", "--HELP", "--bogus"]), USAGE);
}

#[test]
fn run_with_an_unknown_option_names_it() {
    assert_eq!(written(&["--bogus"]), "Unknown option: --bogus\n");
    assert_eq!(written(&["-s", "3", "--bogus", "-h"]), "Unknown option: --bogus\n");
}

#[test]
fn run_reads_flags_in_any_case() {
    assert_eq!(written(&["-S", "5"]), written(&["-s", "5"]));
    assert_eq!(written(&["-S", "5"]), "    *\n   ***\n  *****\n *******\n*********\n");
    assert_eq!(written(&["--SIZE", "2", "--Character", "A"]), " A\nAAA\n");
}

#[test]
fn run_with_a_fill_of_several_bytes() {
    assert_eq!(written(&["-s", "2", "-c", "é"]), " é\nééé\n");
}
