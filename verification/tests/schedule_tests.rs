use codex_launcher::schedule::{compile_schedule, validate_time, Month, MonthlyDay, ScheduleConfig, Weekday};

fn strings(values: &[&str]) -> Vec<String> {
    values.iter().map(|v| v.to_string()).collect()
}

#[test]
fn native_schedules_compile_to_expected_schtasks_arguments() {
    assert_eq!(
        compile_schedule(&ScheduleConfig::Daily {
            time: "08:40".to_string(),
            every_days: 2,
        })
        .expect("daily")
        .schtasks_args,
        strings(&["/SC", "DAILY", "/MO", "2", "/ST", "08:40"])
    );
    assert_eq!(
        compile_schedule(&ScheduleConfig::Weekly {
            time: "09:15".to_string(),
            every_weeks: 1,
            days: vec![Weekday::Friday, Weekday::Monday],
        })
        .expect("weekly")
        .schtasks_args,
        strings(&["/SC", "WEEKLY", "/MO", "1", "/D", "MON,FRI", "/ST", "09:15"])
    );
    assert_eq!(
        compile_schedule(&ScheduleConfig::AtStartup { delay_seconds: 65 })
            .expect("startup")
            .schtasks_args,
        strings(&["/SC", "ONSTART", "/DELAY", "0001:05"])
    );
}

#[test]
fn cron_subset_maps_to_native_schedules() {
    let minute = compile_schedule(&ScheduleConfig::Cron {
        expression: "*/15 * * * *".to_string(),
    })
    .expect("minute cron");
    assert_eq!(
        minute.schtasks_args,
        strings(&["/SC", "MINUTE", "/MO", "15", "/ST", "00:00"])
    );

    let weekly = compile_schedule(&ScheduleConfig::Cron {
        expression: "30 9 * * MON-FRI".to_string(),
    })
    .expect("weekly cron");
    assert_eq!(
        weekly.schtasks_args,
        strings(&["/SC", "WEEKLY", "/MO", "1", "/D", "MON,TUE,WED,THU,FRI", "/ST", "09:30"])
    );
}

#[test]
fn unsupported_cron_is_rejected_without_approximation() {
    for expression in ["0,30 9 * * *", "0 9 1 * MON", "0 9 * JAN MON", "0 0 9 * * *"] {
        assert!(compile_schedule(&ScheduleConfig::Cron {
            expression: expression.to_string(),
        })
        .is_err());
    }
}

#[test]
fn monthly_explicit_impossible_date_is_rejected() {
    let error = compile_schedule(&ScheduleConfig::Monthly {
        time: "08:00".to_string(),
        day: MonthlyDay::Day { day: 31 },
        months: vec![Month::February],
    })
    .expect_err("February 31 must fail");
    assert!(error.contains("2月"));
}

#[test]
fn default_schedule_is_daily_at_0840() {
    let compiled = compile_schedule(&ScheduleConfig::default()).expect("default");
    assert_eq!(compiled.schtasks_args, strings(&["/SC", "DAILY", "/MO", "1", "/ST", "08:40"]));
}

#[test]
fn weekly_days_are_sorted_and_deduplicated() {
    let compiled = compile_schedule(&ScheduleConfig::Weekly {
        time: "07:00".to_string(),
        every_weeks: 2,
        days: vec![Weekday::Sunday, Weekday::Monday, Weekday::Sunday],
    })
    .expect("weekly");
    assert_eq!(
        compiled.schtasks_args,
        strings(&["/SC", "WEEKLY", "/MO", "2", "/D", "MON,SUN", "/ST", "07:00"])
    );
}

#[test]
fn summary_and_validate_follow_compilation() {
    let bad = ScheduleConfig::Cron { expression: "bogus".to_string() };
    assert!(bad.validate().is_err());
    assert!(bad.summary().is_err());
    let good = ScheduleConfig::default();
    assert!(good.validate().is_ok());
    assert!(!good.summary().expect("summary").is_empty());
}

#[test]
fn schedule_copy_compares_equal() {
    let s = ScheduleConfig::Weekly {
        time: "09:15".to_string(),
        every_weeks: 1,
        days: vec![Weekday::Friday],
    };
    assert!(s.duplicate().same_as(&s));
    assert!(!s.same_as(&ScheduleConfig::default()));
}

#[test]
fn plain_times_of_day_are_accepted() {
    assert_eq!(validate_time("09:15"), Ok(()));
    assert_eq!(validate_time(" 23:59 "), Ok(()));
    assert_eq!(validate_time("00:00"), Ok(()));
    assert_eq!(validate_time("12: 5"), Ok(()));
    assert_eq!(validate_time("24:00"), Err("计划时间必须是 00:00 到 23:59 的有效时间".to_string()));
    assert_eq!(validate_time("12:60"), Err("计划时间必须是 00:00 到 23:59 的有效时间".to_string()));
    assert_eq!(validate_time("1a:00"), Err("计划时间必须是 00:00 到 23:59 的有效时间".to_string()));
    assert_eq!(validate_time("9:15"), Err("计划时间必须使用严格 HH:mm 格式".to_string()));
    assert_eq!(validate_time("09-15"), Err("计划时间必须使用严格 HH:mm 格式".to_string()));
    let daily = compile_schedule(&ScheduleConfig::Daily { time: " 09:00 ".to_string(), every_days: 1 }).unwrap();
    assert_eq!(daily.schtasks_args, strings(&["/SC", "DAILY", "/MO", "1", "/ST", "09:00"]));
}
