use awsbck::config::{
    clean_filename, parse_config, parse_schedule, sanitize_filename, ConfigArgs, ConfigError,
    FolderCheck,
};

#[test]
fn test_sanitize_filename() {
    assert_eq!(&sanitize_filename("foo123"), "foo123");
    assert_eq!(&sanitize_filename("foo bar"), "foobar");
    assert_eq!(&sanitize_filename("foo/bar"), "foo/bar");
    assert_eq!(&sanitize_filename("foo.tar.gz"), "foo.tar.gz");
    assert_eq!(&sanitize_filename("٣৬¾①🦀"), "");
    assert_eq!(&sanitize_filename("!-_.*'()/"), "!-_.*'()/");
    assert_eq!(sanitize_filename(&"Bar1".repeat(256)), "Bar1".repeat(250));
}

#[test]
fn sanitize_keeps_every_allowed_character() {
    let all = "abcxyzABCXYZ0189!-_.*'()/";
    assert_eq!(sanitize_filename(all), all);
}

#[test]
fn sanitize_drops_other_ascii() {
    assert_eq!(sanitize_filename("a b\tc\"d#e$f%g&h+i,j:k;l<m=n>o?p@q[r\\s]t^u`v{w|x}y~z"), "abcdefghijklmnopqrstuvwxyz");
}

#[test]
fn sanitize_empty() {
    assert_eq!(sanitize_filename(""), "");
}

#[test]
fn sanitize_cuts_after_filtering() {
    // 1200 characters of which 1000 survive exactly
    let input = format!("{}{}", " ".repeat(200), "x".repeat(1000));
    assert_eq!(sanitize_filename(&input), "x".repeat(1000));
    let long = format!("{}é{}", "y".repeat(999), "z".repeat(5));
    assert_eq!(sanitize_filename(&long), format!("{}z", "y".repeat(999)));
}

#[test]
fn sanitize_is_idempotent_on_examples() {
    for s in ["a b/c", "٣৬x", &"Q!".repeat(700)] {
        let once = sanitize_filename(s);
        assert_eq!(sanitize_filename(&once), once);
    }
}

#[test]
fn clean_filename_cases() {
    assert_eq!(clean_filename(None), None);
    assert_eq!(clean_filename(Some("my file".to_string())), Some("myfile".to_string()));
    assert_eq!(clean_filename(Some("🦀 ".to_string())), None);
    assert_eq!(clean_filename(Some(String::new())), None);
}

fn args(cron: Option<&str>, filename: Option<&str>) -> ConfigArgs {
    ConfigArgs {
        folder: "./src".to_string(),
        cron: cron.map(|c| c.to_string()),
        filename: filename.map(|f| f.to_string()),
        aws_region: "us-east-1".to_string(),
        aws_bucket: "foo".to_string(),
        aws_key_id: "bar".to_string(),
        aws_key: "baz".to_string(),
    }
}

#[test]
fn parse_schedule_cases() {
    assert!(matches!(parse_schedule(None), Ok(None)));
    let s = parse_schedule(Some("*/1 * * * * * *".to_string())).unwrap().unwrap();
    assert_eq!(s.expression(), "*/1 * * * * * *");
    assert_eq!(s.schedule().to_string(), "*/1 * * * * * *");
    assert_eq!(
        s.schedule(),
        &"*/1 * * * * * *".parse::<cron::Schedule>().unwrap()
    );
    assert!(matches!(
        parse_schedule(Some("0 30 9,12,15 1,15 May-Aug Mon,Wed,Fri 2018/2".to_string())),
        Ok(Some(_))
    ));
    match parse_schedule(Some("every day".to_string())) {
        Err(e) => assert_eq!(e, ConfigError::InvalidCron("every day".to_string())),
        Ok(_) => panic!("accepted an invalid expression"),
    }
}

#[test]
fn parse_config_once() {
    let p = parse_config(args(None, Some("test/test")), FolderCheck::Directory).unwrap();
    assert!(p.schedule.is_none());
    assert_eq!(p.filename, Some("test/test".to_string()));
    assert_eq!(p.aws_region, "us-east-1");
    assert_eq!(p.aws_bucket, "foo");
    assert_eq!(p.aws_key_id, "bar");
    assert_eq!(p.aws_key, "baz");
}

#[test]
fn parse_config_with_schedule_and_bad_filename() {
    let p = parse_config(args(Some("@hourly"), Some("🦀")), FolderCheck::Directory).unwrap();
    assert_eq!(p.schedule.as_ref().unwrap().expression(), "@hourly");
    assert_eq!(p.filename, None);

    let mut a = args(None, None);
    a.aws_region = "eu-central-1".to_string();
    let p = parse_config(a, FolderCheck::Directory).unwrap();
    assert_eq!(p.aws_region, "eu-central-1");
}

#[test]
fn parse_config_cron_archive() {
    let p = parse_config(args(Some("*/1 * * * * * *"), Some("cron_archive")), FolderCheck::Directory)
        .unwrap();
    assert_eq!(p.filename, Some("cron_archive".to_string()));
    let s = p.schedule.unwrap();
    assert_eq!(s.expression(), "*/1 * * * * * *");
    assert_eq!(s.schedule(), &"*/1 * * * * * *".parse::<cron::Schedule>().unwrap());
}

#[test]
fn parse_config_errors() {
    let e = parse_config(args(Some("nope"), None), FolderCheck::Unresolved).err().unwrap();
    assert_eq!(e, ConfigError::InvalidCron("nope".to_string()));
    assert_eq!(e.message(), "Could not parse cron expression 'nope'");

    let e = parse_config(args(None, None), FolderCheck::Unresolved).err().unwrap();
    assert_eq!(e, ConfigError::UnresolvedFolder("./src".to_string()));
    assert_eq!(e.message(), "Could not resolve path ./src");

    let e = parse_config(args(None, None), FolderCheck::NotADirectory("/etc/hosts".to_string()))
        .err()
        .unwrap();
    assert_eq!(e, ConfigError::NotAFolder("/etc/hosts".to_string()));
    assert_eq!(e.message(), "'/etc/hosts' is not a folder");
}
