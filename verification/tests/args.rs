use can_recorder::args::{flag_of, process_args, split, ArgError, Args, CanDataInput, Flag};

fn argv(words: &[&str]) -> Vec<String> {
    words.iter().map(|w| w.to_string()).collect()
}

#[test]
fn empty_command_line() {
    let args = process_args(&Vec::new()).unwrap();
    assert_eq!(args.dbcfile, "");
    assert_eq!(args.input, "");
    assert_eq!(args.output, "");
    assert_eq!(args.candatainput, CanDataInput::File);
    assert_eq!(args.cache_ms, "");
    assert!(args.aux_outputs.is_empty());
    assert!(args.plots.is_empty());
    assert!(!args.en_ipm);
    assert!(!args.en_aux);
    assert!(args.unknown.is_empty());
}

#[test]
fn empty_command_line_gives_the_defaults() {
    assert_eq!(process_args(&Vec::new()), Ok(Args::default()));
}

#[test]
fn default_input_is_a_log_file() {
    assert_eq!(CanDataInput::default(), CanDataInput::File);
}

#[test]
fn long_options() {
    let args = process_args(&argv(&[
        "--dbc", "bus.dbc", "--input", "log.txt", "--candump", "--cache-ms", "250", "--output",
        "out.parquet",
    ]))
    .unwrap();
    assert_eq!(args.dbcfile, "bus.dbc");
    assert_eq!(args.input, "log.txt");
    assert_eq!(args.candatainput, CanDataInput::File);
    assert_eq!(args.cache_ms, "250");
    assert_eq!(args.output, "out.parquet");
    assert!(args.en_ipm);
    assert!(!args.en_aux);
}

#[test]
fn short_options() {
    let args =
        process_args(&argv(&["-d", "bus.dbc", "-i", "can0", "-s", "-c", "12.5", "-o", "o"])).unwrap();
    assert_eq!(args.dbcfile, "bus.dbc");
    assert_eq!(args.input, "can0");
    assert_eq!(args.candatainput, CanDataInput::Socket);
    assert_eq!(args.cache_ms, "12.5");
    assert_eq!(args.output, "o");
}

#[test]
fn input_selectors() {
    assert_eq!(process_args(&argv(&["-f"])).unwrap().candatainput, CanDataInput::File);
    assert_eq!(process_args(&argv(&["--socket"])).unwrap().candatainput, CanDataInput::Socket);
    assert_eq!(process_args(&argv(&["-t"])).unwrap().candatainput, CanDataInput::Stdin);
    assert_eq!(process_args(&argv(&["--stdin"])).unwrap().candatainput, CanDataInput::Stdin);
    assert_eq!(process_args(&argv(&["-r"])).unwrap().candatainput, CanDataInput::Remote);
    assert_eq!(process_args(&argv(&["--remote"])).unwrap().candatainput, CanDataInput::Remote);
    assert_eq!(process_args(&argv(&["-s", "-t", "-f"])).unwrap().candatainput, CanDataInput::File);
}

#[test]
fn every_plot_adds_a_group() {
    let args = process_args(&argv(&["--plot", "a,b", "-p", "c", "-p", "b,,d"])).unwrap();
    assert!(args.en_aux);
    assert_eq!(args.plots, vec![vec!["a", "b"], vec!["c"], vec!["b", "", "d"]]);
    assert_eq!(args.aux_outputs, vec!["a", "b", "c", "b", "", "d"]);
}

#[test]
fn unknown_arguments_do_no_harm() {
    let args = process_args(&argv(&["--verbose", "-d", "x.dbc", "stray", "--DBC"])).unwrap();
    assert_eq!(args.dbcfile, "x.dbc");
    assert_eq!(args.unknown, vec!["--verbose", "stray", "--DBC"]);
}

#[test]
fn value_is_taken_whatever_it_is() {
    let args = process_args(&argv(&["-d", "-i", "-o", "-p"])).unwrap();
    assert_eq!(args.dbcfile, "-i");
    assert_eq!(args.output, "-p");
    assert_eq!(args.input, "");
    assert!(args.plots.is_empty());
}

#[test]
fn later_value_replaces_the_earlier() {
    let args = process_args(&argv(&["-d", "a", "-d", "b", "-c", "1", "-c", "2"])).unwrap();
    assert_eq!(args.dbcfile, "b");
    assert_eq!(args.cache_ms, "2");
}

#[test]
fn option_without_its_value() {
    assert_eq!(
        process_args(&argv(&["--dbc"])).err(),
        Some(ArgError::MissingValue { flag: Flag::Dbc, at: 0 })
    );
    assert_eq!(
        process_args(&argv(&["-f", "-i"])).err(),
        Some(ArgError::MissingValue { flag: Flag::Input, at: 1 })
    );
    assert_eq!(
        process_args(&argv(&["x", "y", "-c"])).err(),
        Some(ArgError::MissingValue { flag: Flag::CacheMs, at: 2 })
    );
    assert_eq!(
        process_args(&argv(&["-o"])).err(),
        Some(ArgError::MissingValue { flag: Flag::Output, at: 0 })
    );
    assert_eq!(
        process_args(&argv(&["-p", "a", "-p"])).err(),
        Some(ArgError::MissingValue { flag: Flag::Plot, at: 2 })
    );
}

#[test]
fn options_by_name() {
    assert_eq!(flag_of("--dbc"), Some(Flag::Dbc));
    assert_eq!(flag_of("-d"), Some(Flag::Dbc));
    assert_eq!(flag_of("--input"), Some(Flag::Input));
    assert_eq!(flag_of("--candump"), Some(Flag::Candump));
    assert_eq!(flag_of("--socket"), Some(Flag::Socket));
    assert_eq!(flag_of("--cache-ms"), Some(Flag::CacheMs));
    assert_eq!(flag_of("--output"), Some(Flag::Output));
    assert_eq!(flag_of("--plot"), Some(Flag::Plot));
    assert_eq!(flag_of("-x"), None);
    assert_eq!(flag_of(""), None);
    assert_eq!(flag_of("--dbc "), None);
    assert_eq!(flag_of("dbc"), None);
}

#[test]
fn split_at_commas() {
    assert_eq!(split("a,b,c", ','), vec!["a", "b", "c"]);
    assert_eq!(split("", ','), vec![""]);
    assert_eq!(split(",", ','), vec!["", ""]);
    assert_eq!(split("a,", ','), vec!["a", ""]);
    assert_eq!(split(",a", ','), vec!["", "a"]);
    assert_eq!(split("abc", ','), vec!["abc"]);
    assert_eq!(split("Größe,温度", ','), vec!["Größe", "温度"]);
}
