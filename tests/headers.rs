use cxx_gen::{Facility, Include, IncludeKind, Includes};

fn quoted(path: &str) -> Include {
    Include { path: path.to_string(), kind: IncludeKind::Quoted }
}

fn bracketed(path: &str) -> Include {
    Include { path: path.to_string(), kind: IncludeKind::Bracketed }
}

fn render(header: bool, set: &mut Includes) -> String {
    cxx_gen::headers::write(header, set);
    set.content().to_string()
}

#[test]
fn new_is_empty() {
    let set = Includes::new();
    assert!(set.custom().is_empty());
    assert_eq!(set.content(), "");
    assert!(!set.is_required(Facility::Vector));
    assert!(!set.is_required(Facility::Basetsd));
}

#[test]
fn empty_set_writes_nothing() {
    let mut set = Includes::new();
    assert_eq!(render(false, &mut set), "");
}

#[test]
fn empty_header_writes_only_pragma() {
    let mut set = Includes::new();
    assert_eq!(render(true, &mut set), "#pragma once\n");
}

#[test]
fn scenario_vector_cstdint_foo() {
    let mut set = Includes::new();
    set.require(Facility::Vector);
    set.require(Facility::Cstdint);
    set.insert(quoted("foo.h"));
    let text = render(true, &mut set);
    assert_eq!(
        text,
        "#pragma once\n#include \"foo.h\"\n#include <cstdint>\n#include <vector>\n"
    );
    assert!(!text.contains("<string>"));
}

#[test]
fn custom_order_is_insertion_order() {
    let mut set = Includes::new();
    set.insert(quoted("b.h"));
    set.insert(bracketed("a.h"));
    assert_eq!(render(false, &mut set), "#include \"b.h\"\n#include <a.h>\n");
}

#[test]
fn duplicates_are_kept() {
    let mut set = Includes::new();
    set.insert(quoted("x.h"));
    set.insert(quoted("x.h"));
    assert_eq!(set.custom().len(), 2);
    assert_eq!(render(false, &mut set), "#include \"x.h\"\n#include \"x.h\"\n");
}

#[test]
fn extend_appends_in_order() {
    let mut set = Includes::new();
    set.insert(quoted("first.h"));
    let more = vec![bracketed("second"), quoted("third.h")];
    set.extend(&more);
    assert_eq!(set.custom().len(), 3);
    assert_eq!(set.custom()[1], bracketed("second"));
    assert_eq!(set.custom()[2], quoted("third.h"));
    assert_eq!(
        render(false, &mut set),
        "#include \"first.h\"\n#include <second>\n#include \"third.h\"\n"
    );
}

#[test]
fn flag_set_many_times_gives_one_line() {
    let mut set = Includes::new();
    set.require(Facility::Vector);
    set.require(Facility::Vector);
    set.require(Facility::Vector);
    assert!(set.is_required(Facility::Vector));
    assert_eq!(render(false, &mut set), "#include <vector>\n");
}

#[test]
fn custom_before_standard_before_platform() {
    let mut set = Includes::new();
    set.require(Facility::Basetsd);
    set.require(Facility::Memory);
    set.insert(bracketed("zzz.h"));
    assert_eq!(
        render(true, &mut set),
        "#pragma once\n#include <zzz.h>\n#include <memory>\n#if defined(_WIN32)\n#include <basetsd.h>\n#endif\n"
    );
}

#[test]
fn all_flags_in_fixed_order() {
    let mut set = Includes::new();
    let all = [
        Facility::Basetsd,
        Facility::Vector,
        Facility::Utility,
        Facility::TypeTraits,
        Facility::String,
        Facility::New,
        Facility::Memory,
        Facility::Iterator,
        Facility::InitializerList,
        Facility::Exception,
        Facility::Cstring,
        Facility::Cstdint,
        Facility::Cstddef,
        Facility::Array,
        Facility::Algorithm,
    ];
    for f in all {
        set.require(f);
    }
    let expected = "#include <algorithm>\n#include <array>\n#include <cstddef>\n\
#include <cstdint>\n#include <cstring>\n#include <exception>\n\
#include <initializer_list>\n#include <iterator>\n#include <memory>\n\
#include <new>\n#include <string>\n#include <type_traits>\n\
#include <utility>\n#include <vector>\n\
#if defined(_WIN32)\n#include <basetsd.h>\n#endif\n";
    assert_eq!(render(false, &mut set), expected);
}

#[test]
fn output_independent_of_mark_order() {
    let mut a = Includes::new();
    a.require(Facility::String);
    a.require(Facility::Array);
    a.require(Facility::String);
    let mut b = Includes::new();
    b.require(Facility::Array);
    b.require(Facility::String);
    assert_eq!(render(true, &mut a), render(true, &mut b));
}

#[test]
fn repeated_runs_are_identical() {
    let build = || {
        let mut set = Includes::new();
        set.insert(quoted("p.h"));
        set.require(Facility::Exception);
        set.require(Facility::Basetsd);
        render(true, &mut set)
    };
    assert_eq!(build(), build());
}

#[test]
fn quoted_path_is_escaped() {
    let mut set = Includes::new();
    set.insert(quoted("a\"b\\c"));
    assert_eq!(render(false, &mut set), "#include \"a\\\"b\\\\c\"\n");
}

#[test]
fn quoted_path_escapes_controls_and_non_ascii() {
    let mut set = Includes::new();
    set.insert(quoted("t\tn\né'"));
    assert_eq!(render(false, &mut set), "#include \"t\\tn\\n\\u{e9}\\'\"\n");
}

#[test]
fn bracketed_path_is_verbatim() {
    let mut set = Includes::new();
    set.insert(bracketed("a\"b\\c"));
    assert_eq!(render(false, &mut set), "#include <a\"b\\c>\n");
}

#[test]
fn write_appends_after_existing_text() {
    let mut set = Includes::new();
    set.require(Facility::Array);
    cxx_gen::headers::write(false, &mut set);
    set.require(Facility::Cstddef);
    cxx_gen::headers::write(false, &mut set);
    assert_eq!(
        set.content(),
        "#include <array>\n#include <array>\n#include <cstddef>\n"
    );
}

#[test]
fn constructors_set_kind() {
    assert_eq!(Include::quoted("q.h".to_string()), quoted("q.h"));
    assert_eq!(Include::bracketed("b".to_string()), bracketed("b"));
    let c = quoted("c.h");
    assert_eq!(c.clone(), c);
}

#[test]
fn default_is_new() {
    let mut set = Includes::default();
    assert!(set.custom().is_empty());
    assert!(!set.is_required(Facility::Algorithm));
    assert_eq!(render(true, &mut set), "#pragma once\n");
}
