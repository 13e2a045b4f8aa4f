use criterion_charts_tsx::rawdata::CriterionData;
use criterion_charts_tsx::rawdata::CriterionDataPoint;
use criterion_charts_tsx::timeunit::TimeUnit;
use criterion_charts_tsx::tsxdata::MeanTimeData;
use criterion_charts_tsx::tsxdata::TsxDataSet;

fn close(a: f64, b: f64) -> bool {
    if b == 0.0 {
        a.abs() < 1e-9
    } else {
        ((a - b) / b).abs() < 1e-9
    }
}

fn push_store() -> CriterionData {
    let mut cdata = CriterionData::new();
    let a = [10.0f64, 20.0, 30.0];
    let b = [15.0f64, 25.0, 35.0];
    let iters = [100u32, 200, 300];
    for i in 0..3 {
        cdata.insert(
            "Push".to_string(),
            "A".to_string(),
            a[i].to_bits(),
            iters[i],
            TimeUnit::NS,
        );
        cdata.insert(
            "Push".to_string(),
            "B".to_string(),
            b[i].to_bits(),
            iters[i],
            TimeUnit::NS,
        );
    }
    cdata
}

#[test]
fn scenario_push_two_variants() {
    let cdata = push_store();

    // indices: A = 0, B = 1, by ascending variant key
    let si_map = cdata.series_info_map(Some("Push")).unwrap();
    let outer = &si_map.imap.info_map.entries;
    assert_eq!(outer.len(), 1);
    assert_eq!(outer[0].0, "Push");
    let inner = &outer[0].1.entries;
    assert_eq!(inner.len(), 2);
    assert_eq!(inner[0].0, "A");
    assert_eq!(inner[0].1.y_index, "y0");
    assert_eq!(inner[1].0, "B");
    assert_eq!(inner[1].1.y_index, "y1");

    // three x buckets, each holding two values
    let tt = cdata.total_time_data(Some("Push")).unwrap().unwrap();
    let set = tt.get("Push").unwrap();
    assert_eq!(set.points.entries.len(), 3);
    let keys: Vec<u64> = set.points.entries.iter().map(|e| e.0).collect();
    assert_eq!(keys, vec![100, 200, 300]);
    for e in set.points.entries.iter() {
        assert_eq!(e.1.len(), 2);
    }

    // mean(A) = 20, std_dev(A) = 10
    let uva = &set.uv_analysis.entries[0].1;
    assert_eq!(uva.fn_name(), "A");
    assert_eq!(f64::from_bits(uva.mean()), 20.0);
    assert_eq!(f64::from_bits(uva.std_dev().unwrap()), 10.0);

    // trendline(A) spans (100, 10) -> (300, 30)
    let bva = &set.bv_analysis.entries[0].1;
    let tl = bva.trendline();
    assert_eq!(tl.x_start(), 100);
    assert_eq!(tl.x_end(), 300);
    assert!(close(f64::from_bits(tl.y_start()), 10.0));
    assert!(close(f64::from_bits(tl.y_end()), 30.0));
}

#[test]
fn series_index_stable_across_queries() {
    let cdata = push_store();
    let m1 = cdata.series_info_map(Some("Push")).unwrap();
    let m2 = cdata.series_info_map(None).unwrap();
    let m3 = cdata.series_info_map(Some("Push")).unwrap();
    let i1 = &m1.imap.info_map.entries[0].1.entries;
    let i2 = &m2.imap.info_map.entries[0].1.entries;
    let i3 = &m3.imap.info_map.entries[0].1.entries;
    for k in 0..2 {
        assert_eq!(i1[k].0, i2[k].0);
        assert_eq!(i1[k].1.y_index, i2[k].1.y_index);
        assert_eq!(i1[k].1.ty_index, i2[k].1.ty_index);
        assert_eq!(i1[k].1.dy_index, i2[k].1.dy_index);
        assert_eq!(i1[k].1.y_index, i3[k].1.y_index);
    }
    // the collections assign the same indices: series 0 is variant A
    let tt = cdata.total_time_data(Some("Push")).unwrap().unwrap();
    let set = tt.get("Push").unwrap();
    assert_eq!(set.uv_analysis.entries[0].0, 0);
    assert_eq!(set.uv_analysis.entries[0].1.fn_name(), "A");
    assert_eq!(set.uv_analysis.entries[1].0, 1);
    assert_eq!(set.uv_analysis.entries[1].1.fn_name(), "B");
}

#[test]
fn distinct_iteration_counts_make_distinct_buckets() {
    let mut set = TsxDataSet::new(false);
    let p1 = CriterionDataPoint::new(1.5f64.to_bits(), 100, TimeUnit::NS);
    let p2 = CriterionDataPoint::new(2.5f64.to_bits(), 200, TimeUnit::NS);
    set.insert("v", &p1, 0).unwrap();
    set.insert("v", &p2, 0).unwrap();
    assert_eq!(set.points.entries.len(), 2);
    assert_eq!(set.points.entries[0].0, 100);
    assert_eq!(set.points.entries[1].0, 200);
    assert_eq!(set.points.entries[0].1.len(), 1);
    assert_eq!(set.points.entries[1].1.len(), 1);

    // equal x: values coexist in one bucket, nothing is overwritten
    let p3 = CriterionDataPoint::new(9.5f64.to_bits(), 100, TimeUnit::NS);
    set.insert("v", &p3, 0).unwrap();
    assert_eq!(set.points.entries.len(), 2);
    assert_eq!(set.points.entries[0].1.len(), 2);
    assert_eq!(f64::from_bits(set.points.entries[0].1[0].0), 1.5);
    assert_eq!(f64::from_bits(set.points.entries[0].1[1].0), 9.5);
}

#[test]
fn unit_mismatch_on_second_insert() {
    let mut mt = MeanTimeData::new();
    let p1 = CriterionDataPoint::new(1.0f64.to_bits(), 10, TimeUnit::NS);
    let p2 = CriterionDataPoint::new(2.0f64.to_bits(), 20, TimeUnit::MS);
    assert!(mt.push("G", "v", &p1, 0).is_ok());
    let err = mt.push("G", "v", &p2, 0).unwrap_err();
    assert_eq!(err.expected, TimeUnit::NS);
    assert_eq!(err.actual, TimeUnit::MS);

    // the same mismatch surfaces when building from the store
    let mut cdata = CriterionData::new();
    cdata.insert("G".to_string(), "v".to_string(), 1.0f64.to_bits(), 10, TimeUnit::NS);
    cdata.insert("G".to_string(), "v".to_string(), 2.0f64.to_bits(), 20, TimeUnit::MS);
    assert!(cdata.mean_time_data(None).is_err());
    assert!(cdata.total_time_data(Some("G")).is_err());
}

#[test]
fn density_of_single_observation_is_refused() {
    let mut uva = criterion_charts_tsx::stats::UvAnalysis::new("v".to_string());
    uva.add(42.0f64.to_bits());
    let err = match uva.kdensity(500) {
        Err(e) => e,
        Ok(_) => panic!("a single observation must not yield a density"),
    };
    assert_eq!(err.samples, 1);
    assert!(uva.variance().is_err());
    assert!(uva.std_dev().is_err());

    // and through the merged density data set of a collection
    let mut set = TsxDataSet::new(false);
    let p = CriterionDataPoint::new(42.0f64.to_bits(), 7, TimeUnit::NS);
    set.insert("v", &p, 0).unwrap();
    assert!(set.to_pdf_data().is_err());
}

#[test]
fn incremental_stats_match_two_pass() {
    let sample = [3.5f64, 7.25, 11.0, 2.0, 5.125, 9.75];
    let mut uva = criterion_charts_tsx::stats::UvAnalysis::new("v".to_string());
    for v in sample.iter() {
        uva.add(v.to_bits());
    }
    let n = sample.len() as f64;
    let direct_mean: f64 = sample.iter().sum::<f64>() / n;
    let direct_var: f64 =
        sample.iter().map(|x| (x - direct_mean) * (x - direct_mean)).sum::<f64>() / (n - 1.0);
    let direct_sd = direct_var.sqrt();
    let mean = f64::from_bits(uva.mean());
    let sd = f64::from_bits(uva.std_dev().unwrap());
    assert!(close(mean, direct_mean));
    assert!(close(sd, direct_sd));
}

#[test]
fn trendline_spans_observed_x_extremes() {
    let mut bva = criterion_charts_tsx::stats::BvAnalysis::new();
    bva.add(300, 31.0f64.to_bits());
    bva.add(100, 9.0f64.to_bits());
    bva.add(200, 20.5f64.to_bits());
    let tl = bva.trendline();
    assert_eq!(tl.x_start(), 100);
    assert_eq!(tl.x_end(), 300);
}

#[test]
fn density_grid_has_exact_count_increasing_and_spanning() {
    let sample = [10.0f64, 20.0, 30.0, 14.0, 26.0];
    let mut uva = criterion_charts_tsx::stats::UvAnalysis::new("v".to_string());
    for v in sample.iter() {
        uva.add(v.to_bits());
    }
    for x_range in [2u16, 7, 500] {
        let kds = uva.kdensity(x_range).unwrap();
        assert_eq!(kds.points().len(), x_range as usize);
        let xs: Vec<f64> = kds.points().iter().map(|p| f64::from_bits(p.x_val())).collect();
        for w in xs.windows(2) {
            assert!(w[0] < w[1]);
        }
        // spans [min - 3h, max + 3h]
        let h = f64::from_bits(uva.kde_bw().unwrap());
        assert_eq!(xs[0], 10.0 - 3.0 * h);
        assert!(close(*xs.last().unwrap(), 30.0 + 3.0 * h));
        for p in kds.points().iter() {
            let d = f64::from_bits(p.density());
            assert!(d >= 0.0);
        }
    }
}

#[test]
fn mean_time_values_are_total_time_values_divided_by_x() {
    let cdata = push_store();
    let tt = cdata.total_time_data(Some("Push")).unwrap().unwrap();
    let mt = cdata.mean_time_data(Some("Push")).unwrap().unwrap();
    let tset = tt.get("Push").unwrap();
    let mset = mt.get("Push").unwrap();
    // same groups, same x-bucket keys, same series indices
    let tkeys: Vec<u64> = tset.points.entries.iter().map(|e| e.0).collect();
    let mkeys: Vec<u64> = mset.points.entries.iter().map(|e| e.0).collect();
    assert_eq!(tkeys, mkeys);
    assert_eq!(tset.uv_analysis.entries.len(), mset.uv_analysis.entries.len());
    // every mean-time sample value equals the total-time value divided
    // by its iteration count, series by series, point by point
    let iters = [100u32, 200, 300];
    for si in 0..tset.uv_analysis.entries.len() {
        assert_eq!(tset.uv_analysis.entries[si].0, mset.uv_analysis.entries[si].0);
        let traw = &tset.uv_analysis.entries[si].1;
        let mraw = &mset.uv_analysis.entries[si].1;
        assert_eq!(traw.sample.len(), mraw.sample.len());
        for pj in 0..traw.sample.len() {
            let total = f64::from_bits(traw.sample[pj]);
            let mean = f64::from_bits(mraw.sample[pj]);
            assert_eq!(mean, total / iters[pj] as f64);
        }
    }
}
