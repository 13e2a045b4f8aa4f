use criterion_charts_tsx::infomap::SeriesInfo;
use criterion_charts_tsx::infomap::StatsInfoMap;
use criterion_charts_tsx::rawdata::CriterionDataPoint;
use criterion_charts_tsx::stats::UvAnalysis;
use criterion_charts_tsx::timeunit::TimeUnit;
use criterion_charts_tsx::tsxdata::PdfDataSet;
use criterion_charts_tsx::tsxdata::PdfEntry;
use criterion_charts_tsx::tsxdata::TsxDataSet;

fn rel_close(a: f64, b: f64) -> bool {
    if b == 0.0 {
        a.abs() < 1e-9
    } else {
        ((a - b) / b).abs() < 1e-9
    }
}

#[test]
fn density_values_follow_the_gaussian_kernel() {
    let sample = [10.0f64, 20.0, 30.0];
    let mut uva = UvAnalysis::new("v".to_string());
    for v in sample.iter() {
        uva.add(v.to_bits());
    }
    let h = f64::from_bits(uva.kde_bw().unwrap());
    let kds = uva.kdensity(11).unwrap();
    // recompute the estimate independently at every grid point
    for p in kds.points().iter() {
        let x = f64::from_bits(p.x_val());
        let mut sum = 0.0f64;
        for s in sample.iter() {
            let u = (x - s) / h;
            sum += (-u * u / 2.0).exp() / (2.0 * std::f64::consts::PI).sqrt();
        }
        let expected = sum / (sample.len() as f64 * h);
        assert!(rel_close(f64::from_bits(p.density()), expected));
    }
}

#[test]
fn silverman_bandwidth_formula() {
    let sample = [4.0f64, 8.0, 6.0, 2.0];
    let mut uva = UvAnalysis::new("v".to_string());
    for v in sample.iter() {
        uva.add(v.to_bits());
    }
    let sd = f64::from_bits(uva.std_dev().unwrap());
    let expected = sd * (4.0f64 / (3.0 * 4.0)).powf(0.2);
    assert!(rel_close(f64::from_bits(uva.kde_bw().unwrap()), expected));
}

#[test]
fn merged_pdf_data_is_sorted_and_complete() {
    let mut set = TsxDataSet::new(false);
    let values = [30.0f64, 10.0, 20.0, 25.0];
    let iters = [300u32, 100, 200, 100];
    for i in 0..4 {
        let p = CriterionDataPoint::new(values[i].to_bits(), iters[i], TimeUnit::NS);
        set.insert("v", &p, 0).unwrap();
    }
    let pdf = set.to_pdf_data().unwrap();
    // every raw measurement plus one 500-point curve
    assert_eq!(pdf.data.len(), 4 + 500);
    let xs: Vec<f64> = pdf.data.iter().map(|p| f64::from_bits(p.x_val())).collect();
    for w in xs.windows(2) {
        assert!(w[0] <= w[1]);
    }
    let raw: Vec<f64> = pdf
        .data
        .iter()
        .filter(|p| matches!(p.entry(), PdfEntry::Measurement { .. }))
        .map(|p| f64::from_bits(p.x_val()))
        .collect();
    assert_eq!(raw, vec![10.0, 20.0, 25.0, 30.0]);

    // the density entries are exactly the series' 500-point curve
    let curve = set.uv_analysis.entries[0].1.kdensity(500).unwrap();
    let mut expected: Vec<(u64, u64)> =
        curve.points().iter().map(|p| (p.x_val(), p.density())).collect();
    let mut got: Vec<(u64, u64)> = pdf
        .data
        .iter()
        .filter_map(|p| match p.entry() {
            PdfEntry::Density { y_index, density } => {
                assert_eq!(y_index, 0);
                Some((p.x_val(), density))
            },
            _ => None,
        })
        .collect();
    expected.sort();
    got.sort();
    assert_eq!(got, expected);
}

#[test]
fn pdf_sort_keeps_entries() {
    let mut pdf = PdfDataSet::new();
    pdf.add_measurement(5.0f64.to_bits(), 1, 100);
    pdf.add_measurement(1.0f64.to_bits(), 0, 200);
    pdf.add_measurement(3.0f64.to_bits(), 1, 300);
    pdf.sort();
    let xs: Vec<f64> = pdf.data.iter().map(|p| f64::from_bits(p.x_val())).collect();
    assert_eq!(xs, vec![1.0, 3.0, 5.0]);
    match pdf.data[0].entry() {
        PdfEntry::Measurement { y_index, iter_count } => {
            assert_eq!(y_index, 0);
            assert_eq!(iter_count, 200);
        },
        _ => panic!("expected a measurement entry"),
    }
}

#[test]
fn series_info_labels() {
    let si = SeriesInfo::new(0);
    assert_eq!(si.y_index, "y0");
    assert_eq!(si.ty_index, "tl0");
    assert_eq!(si.dy_index, "d0");
    let si = SeriesInfo::new(12);
    assert_eq!(si.y_index, "y12");
    assert_eq!(si.ty_index, "tl12");
    assert_eq!(si.dy_index, "d12");
    let si = SeriesInfo::new(65535);
    assert_eq!(si.y_index, "y65535");
}

#[test]
fn stats_table_collects_mean_and_std_dev() {
    let mut set = TsxDataSet::new(false);
    for (v, it) in [(10.0f64, 1u32), (20.0, 2), (30.0, 3)] {
        let p = CriterionDataPoint::new(v.to_bits(), it, TimeUnit::NS);
        set.insert("var", &p, 0).unwrap();
    }
    let mut si_map = StatsInfoMap::new();
    set.get_uv_stats("grp", &mut si_map).unwrap();
    let outer = &si_map.smap.info_map.entries;
    assert_eq!(outer.len(), 1);
    assert_eq!(outer[0].0, "grp");
    let inner = &outer[0].1.entries;
    assert_eq!(inner.len(), 1);
    assert_eq!(inner[0].0, "var");
    assert_eq!(f64::from_bits(inner[0].1.mean), 20.0);
    assert_eq!(f64::from_bits(inner[0].1.std_dev), 10.0);

    // with a single-sample series the table refuses and stays empty
    let mut set1 = TsxDataSet::new(false);
    let p = CriterionDataPoint::new(1.0f64.to_bits(), 1, TimeUnit::NS);
    set1.insert("w", &p, 0).unwrap();
    let mut si_map1 = StatsInfoMap::new();
    assert!(set1.get_uv_stats("grp", &mut si_map1).is_err());
    assert_eq!(si_map1.smap.info_map.entries.len(), 0);
}

#[test]
fn units_table_per_group() {
    let mut cdata = criterion_charts_tsx::rawdata::CriterionData::new();
    cdata.insert("g1".to_string(), "v".to_string(), 1.0f64.to_bits(), 1, TimeUnit::NS);
    cdata.insert("g2".to_string(), "v".to_string(), 2.0f64.to_bits(), 1, TimeUnit::MS);
    let tt = cdata.total_time_data(None).unwrap().unwrap();
    let units = tt.data().units();
    assert_eq!(units.len(), 2);
    assert_eq!(units[0].0, "g1");
    assert_eq!(units[0].1, TimeUnit::NS);
    assert_eq!(units[1].0, "g2");
    assert_eq!(units[1].1, TimeUnit::MS);
}

#[test]
fn plots_one_per_group() {
    let mut plots = criterion_charts_tsx::cplot::CriterionPlots::new();
    plots.cdata.insert("g2".to_string(), "v".to_string(), 1.5f64.to_bits(), 1, TimeUnit::NS);
    plots.cdata.insert("g1".to_string(), "w".to_string(), 2.5f64.to_bits(), 2, TimeUnit::MS);
    let v = plots.plots().unwrap();
    assert_eq!(v.len(), 2);
    assert_eq!(v[0].group(), "g1");
    assert_eq!(v[1].group(), "g2");
    for p in v.iter() {
        assert!(p.series_info_map.is_some());
        assert!(p.mean_time_data.is_some());
        assert!(p.total_time_data.is_some());
    }
}

#[test]
fn error_carriers_hold_their_context() {
    let ip = criterion_charts_tsx::InvalidPath::new("/no/such/dir");
    assert_eq!(ip.path, "/no/such/dir");
    let ge = criterion_charts_tsx::tsxgen::TsxGenError::new("boom".to_string());
    assert_eq!(ge.msg, "boom");
    let gen = criterion_charts_tsx::tsxgen::TsxGenerator::new("./template.tsx.tpl".to_string());
    assert_eq!(gen.template_path, "./template.tsx.tpl");
}
