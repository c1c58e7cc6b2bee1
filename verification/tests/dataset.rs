use ommx::dataset::{
    check_unsupported, contains_pattern, Catalogue, decimal_text, join_text, miplib_annotation, qplib_annotation, qplib_tag,
    signed_decimal_text, split_text, strip_prefix_text, trim_each, trim_text, validate_instance_name,
    validate_miplib_name, DatasetError, MiplibEntry, QplibEntry, UnsupportedInstance, UnsupportedReason,
};

fn get<'a>(pairs: &'a [(String, String)], key: &str) -> Option<&'a str> {
    pairs.iter().find(|(k, _)| k == key).map(|(_, v)| v.as_str())
}

fn air05() -> MiplibEntry {
    MiplibEntry {
        instance: "air05".to_string(),
        status: "easy".to_string(),
        variables: 7195,
        binaries: 7195,
        integers: 0,
        continuous: 0,
        constraints: 426,
        non_zero: 52121,
        submitter: "G. Astfalk".to_string(),
        group: "air".to_string(),
        objective: Some("26374".to_string()),
        tags: "benchmark binary benchmark_suitable set_partitioning".to_string(),
    }
}

#[test]
fn miplib_annotation_of_air05() {
    let a = miplib_annotation(&air05(), "2025-01-01T00:00:00Z");
    assert_eq!(a.title.as_deref(), Some("air05"));
    assert_eq!(a.authors, Some(vec!["G. Astfalk".to_string()]));
    assert_eq!(a.license.as_deref(), Some("CC-BY-SA-4.0"));
    assert_eq!(a.dataset.as_deref(), Some("MIPLIB2017"));
    assert_eq!(a.created.as_deref(), Some("2025-01-01T00:00:00Z"));
    assert_eq!(a.variables, Some(7195));
    assert_eq!(a.constraints, Some(426));
    assert_eq!(get(&a.other, "org.ommx.miplib.status"), Some("easy"));
    assert_eq!(get(&a.other, "org.ommx.miplib.group"), Some("air"));
    assert_eq!(get(&a.other, "org.ommx.miplib.binaries"), Some("7195"));
    assert_eq!(get(&a.other, "org.ommx.miplib.integers"), Some("0"));
    assert_eq!(get(&a.other, "org.ommx.miplib.continuous"), Some("0"));
    assert_eq!(get(&a.other, "org.ommx.miplib.non_zero"), Some("52121"));
    assert_eq!(get(&a.other, "org.ommx.miplib.objective"), Some("26374"));
    assert_eq!(get(&a.other, "org.ommx.miplib.tags"), Some("benchmark,binary,benchmark_suitable,set_partitioning"));
    assert_eq!(get(&a.other, "org.ommx.miplib.url"), Some("https://miplib.zib.de/instance_details_air05.html"));
}

#[test]
fn miplib_annotation_licenses_and_optional_keys() {
    let mut e = air05();
    e.submitter = "Berk Ustun, Cynthia Rudin ".to_string();
    e.group = "-".to_string();
    e.objective = None;
    let a = miplib_annotation(&e, "t");
    assert_eq!(a.license.as_deref(), Some("BSD-3-Clause"));
    assert_eq!(a.authors, Some(vec!["Berk Ustun".to_string(), "Cynthia Rudin".to_string()]));
    assert_eq!(get(&a.other, "org.ommx.miplib.group"), None);
    assert_eq!(get(&a.other, "org.ommx.miplib.objective"), None);
}

fn qplib_0018() -> QplibEntry {
    QplibEntry {
        name: "QPLIB_0018".to_string(),
        sol_source: "".to_string(),
        donor: "Someone".to_string(),
        nvars: 50,
        ncons: 1,
        nbinvars: 0,
        nintvars: 0,
        nsemi: 0,
        nnlvars: 50,
        nnlbinvars: 0,
        nnlintvars: 0,
        nnlsemi: 0,
        nboundedvars: 50,
        nsingleboundedvars: 0,
        nsos1: 0,
        nsos2: 0,
        nobjnz: 50,
        nobjnlnz: 50,
        njacobiannz: 50,
        njacobiannlnz: 0,
        nlaghessiannz: 1275,
        nlaghessiandiagnz: 50,
        nobjquadnz: 1275,
        nobjquaddiagnz: 50,
        nobjquadnegev: -7,
        nobjquadposev: 43,
        nconvexnlcons: 0,
        nconcavenlcons: 0,
        nindefinitenlcons: 0,
        nlincons: 1,
        nquadcons: 0,
        ndiagquadcons: 0,
        nlaghessianblocks: 1,
        laghessianminblocksize: 50,
        laghessianmaxblocksize: 50,
        laghessianavgblocksize: "50".to_string(),
        nlinfunc: 0,
        nquadfunc: 1,
        nnlfunc: 0,
        nz: 50,
        nlnz: 50,
        ncontvars: 50,
        density: "1".to_string(),
        nldensity: "1".to_string(),
        objquaddensity: "1".to_string(),
        objquadproblevfrac: "0.5".to_string(),
        objsense: "min".to_string(),
        objtype: "quadratic".to_string(),
        objcurvature: "indefinite".to_string(),
        conscurvature: "linear".to_string(),
        probtype: "QCL".to_string(),
        convex: "false".to_string(),
        solobjvalue: "-4.1".to_string(),
        solinfeasibility: "".to_string(),
    }
}

#[test]
fn qplib_annotation_of_0018() {
    let a = qplib_annotation(&qplib_0018());
    assert_eq!(a.title.as_deref(), Some("QPLIB_0018"));
    assert_eq!(a.dataset.as_deref(), Some("QPLIB"));
    assert_eq!(a.license.as_deref(), Some("CC-BY-4.0"));
    assert_eq!(a.authors, Some(vec!["Someone".to_string()]));
    assert_eq!(a.created, None);
    assert_eq!(get(&a.other, "org.ommx.qplib.nvars"), Some("50"));
    assert_eq!(get(&a.other, "org.ommx.qplib.ncons"), Some("1"));
    assert_eq!(get(&a.other, "org.ommx.qplib.objtype"), Some("quadratic"));
    assert_eq!(get(&a.other, "org.ommx.qplib.objcurvature"), Some("indefinite"));
    assert_eq!(get(&a.other, "org.ommx.qplib.probtype"), Some("QCL"));
    assert_eq!(get(&a.other, "org.ommx.qplib.nobjquadnegev"), Some("-7"));
    assert_eq!(get(&a.other, "org.ommx.qplib.nlaghessiannz"), Some("1275"));
    assert_eq!(get(&a.other, "org.ommx.qplib.objquadproblevfrac"), Some("0.5"));
    assert_eq!(get(&a.other, "org.ommx.qplib.solobjvalue"), Some("-4.1"));
    assert_eq!(get(&a.other, "org.ommx.qplib.solinfeasibility"), None);
    assert_eq!(get(&a.other, "org.ommx.qplib.solsource"), None);
    assert_eq!(get(&a.other, "org.ommx.qplib.url"), Some("http://qplib.zib.de/QPLIB_0018.html"));
    assert_eq!(a.other.len(), 51);

    let mut e = qplib_0018();
    e.donor = String::new();
    assert_eq!(qplib_annotation(&e).authors, None);
}

#[test]
fn qplib_keys_drop_the_prefix() {
    assert_eq!(qplib_tag("QPLIB_0018"), "0018");
    assert_eq!(qplib_tag("0031"), "0031");
    assert_eq!(qplib_tag("QPLIB"), "QPLIB");
}

#[test]
fn unsupported_miplib_instances_are_refused_with_their_reason() {
    let reason = |n: &str| check_unsupported(n).err().map(|e| e.reason);
    assert_eq!(reason("neos-933638"), Some(UnsupportedReason::MultiObjective));
    assert_eq!(reason("mad"), Some(UnsupportedReason::MultiObjective));
    assert_eq!(reason("supportcase27i"), Some(UnsupportedReason::Indicators));
    assert_eq!(reason("ghoulomb4-9-10i"), Some(UnsupportedReason::Indicators));
    assert_eq!(reason("diameterc-mstc-v20a190d5i"), Some(UnsupportedReason::LazyConstraints));
    assert_eq!(reason("neos-5044663-wairoa"), Some(UnsupportedReason::BrokenMps));
    assert_eq!(check_unsupported("air05"), Ok(()));
    assert_eq!(
        check_unsupported("lrn"),
        Err(UnsupportedInstance { name: "lrn".to_string(), reason: UnsupportedReason::MultiObjective })
    );
}

#[test]
fn instance_names_are_checked_against_the_catalogue() {
    let known = vec!["air05".to_string(), "mad".to_string()];
    assert_eq!(validate_instance_name("air05", &known, Catalogue::Miplib2017), Ok(()));
    let err = validate_instance_name("nope", &known, Catalogue::Miplib2017).unwrap_err();
    assert_eq!(err, DatasetError::UnknownInstance { name: "nope".to_string(), catalogue: Catalogue::Miplib2017 });
    assert_eq!(err.message(), "Given name 'nope' does not exist in MIPLIB 2017");
    let err = validate_instance_name("9999", &known, Catalogue::Qplib).unwrap_err();
    assert_eq!(err.message(), "Given tag '9999' (QPLIB_9999) does not exist in QPLIB");
    assert_eq!(validate_miplib_name("air05", &known), Ok(()));
    assert_eq!(
        validate_miplib_name("nope", &known),
        Err(DatasetError::UnknownInstance { name: "nope".to_string(), catalogue: Catalogue::Miplib2017 })
    );
    assert_eq!(
        validate_miplib_name("mad", &known).unwrap_err().message(),
        "Instance mad is a multi-objective problem, which is not supported by OMMX."
    );
    let reason_text = |n: &str| check_unsupported(n).unwrap_err().message();
    assert_eq!(reason_text("lrn"), "Instance lrn is a multi-objective problem, which is not supported by OMMX.");
    assert_eq!(reason_text("pizza78i"), "Instance pizza78i contains 'INDICATORS', which is not supported by OMMX.");
    assert_eq!(
        reason_text("diameterc-msts-v40a100d5i"),
        "Instance diameterc-msts-v40a100d5i contains 'LAZYCONS', which is not supported by OMMX."
    );
    assert_eq!(reason_text("neos-5044663-wairoa"), "Instance neos-5044663-wairoa looks broken MPS file.");
    assert_eq!(
        validate_miplib_name("mad", &known),
        Err(DatasetError::Unsupported(UnsupportedInstance { name: "mad".to_string(), reason: UnsupportedReason::MultiObjective }))
    );
}

#[test]
fn text_helpers_follow_std() {
    assert_eq!(decimal_text(0), "0");
    assert_eq!(decimal_text(u64::MAX), u64::MAX.to_string());
    assert_eq!(signed_decimal_text(i64::MIN), i64::MIN.to_string());
    assert_eq!(signed_decimal_text(-12), "-12");
    assert_eq!(trim_text(" \t a b \u{3000}"), "a b");
    assert_eq!(trim_text("   "), "");
    assert_eq!(split_text("a,,b,", ','), vec!["a", "", "b", ""]);
    assert_eq!(split_text("", ','), vec![""]);
    let parts = trim_each(&split_text(" x , y", ','));
    assert_eq!(join_text(&parts, ';'), "x;y");
    assert!(contains_pattern("by Berk Ustun et al", "Berk Ustun"));
    assert!(!contains_pattern("Berk", "Berk Ustun"));
    assert!(contains_pattern("abc", ""));
    assert_eq!(strip_prefix_text("QPLIB_1", "QPLIB_"), "1");
}
