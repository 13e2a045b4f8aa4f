use criterion_charts_tsx::rawdata::CriterionData;
use criterion_charts_tsx::rawdata::CriterionDataSet;
use criterion_charts_tsx::rawdata::CriterionFnData;
use criterion_charts_tsx::timeunit::TimeUnit;

#[test]
fn test_cdata() {
    let mut cdata = CriterionData::new();
    let measurement: f64 = 54.625;
    let iter_count: u32 = 81928;
    cdata.insert(
        "Push".to_string(),
        "Fll-NoAlloc-Push".to_string(),
        measurement.to_bits(),
        iter_count,
        TimeUnit::NS,
    );

    let fn_data: &CriterionFnData;
    if let Some(fnd) = cdata.get("Push") {
        fn_data = fnd;
    } else {
        assert!(false);
        return;
    }

    let c_dataset: &CriterionDataSet;
    if let Some(cds) = fn_data.get("Fll-NoAlloc-Push") {
        c_dataset = cds;
    } else {
        assert!(false);
        return;
    }

    if let Some(cdp) = c_dataset.get(0) {
        assert_eq!(iter_count, cdp.iter_count());
        assert_eq!(measurement.to_bits(), cdp.measurement());
    } else {
        assert!(false);
    }
}

#[test]
fn groups_are_case_insensitive_and_sorted() {
    let mut cdata = CriterionData::new();
    cdata.insert("Zeta".to_string(), "v".to_string(), 1.0f64.to_bits(), 1, TimeUnit::NS);
    cdata.insert("alpha".to_string(), "v".to_string(), 2.0f64.to_bits(), 1, TimeUnit::NS);
    cdata.insert("ZETA".to_string(), "w".to_string(), 3.0f64.to_bits(), 1, TimeUnit::NS);
    let groups = cdata.groups();
    assert_eq!(groups.len(), 2);
    assert_eq!(groups[0], "alpha");
    // first-seen casing is retained for display
    assert_eq!(groups[1], "Zeta");
    assert!(cdata.get("zeta").is_some());
    assert!(cdata.get("ALPHA").is_some());
    assert!(cdata.get("beta").is_none());
}

#[test]
fn empty_store_has_no_groups() {
    let cdata = CriterionData::new();
    assert_eq!(cdata.groups().len(), 0);
    assert!(cdata.get("anything").is_none());
}

#[test]
fn as_mean_time_divides_by_iter_count() {
    let p = criterion_charts_tsx::rawdata::CriterionDataPoint::new(
        100.0f64.to_bits(),
        4,
        TimeUnit::NS,
    );
    let m = p.as_mean_time();
    assert_eq!(f64::from_bits(m.measurement()), 25.0);
    assert_eq!(m.iter_count(), 4);
    assert_eq!(m.time_unit(), TimeUnit::NS);
}

#[test]
fn time_unit_parse_accepts_any_case() {
    assert_eq!(TimeUnit::from_str("ns").unwrap(), TimeUnit::NS);
    assert_eq!(TimeUnit::from_str("NS").unwrap(), TimeUnit::NS);
    assert_eq!(TimeUnit::from_str("Ms").unwrap(), TimeUnit::MS);
    assert_eq!(TimeUnit::from_str("ms").unwrap(), TimeUnit::MS);
    let err = TimeUnit::from_str("sec");
    assert!(err.is_err());
    assert_eq!(err.unwrap_err().0, "sec");
    assert_eq!(TimeUnit::NS.label(), "ns");
    assert_eq!(TimeUnit::MS.label(), "ms");
}
