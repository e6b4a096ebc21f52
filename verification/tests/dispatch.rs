use package_dispatch::dispatch::{package_formatter, PackageType, SubPackageType};
use package_dispatch::text::{join_with_commas, parse_packages, trim};

#[test]
fn classifies_pip() {
    let p = package_formatter("numpy".to_string(), "pip".to_string());
    assert_eq!(p.command, PackageType::Python);
    assert_eq!(p.install_command, SubPackageType::NotExist);
}

#[test]
fn classifies_base() {
    let p = package_formatter("ggplot2".to_string(), "base".to_string());
    assert_eq!(p.command, PackageType::R);
    assert_eq!(p.install_command, SubPackageType::Base);
}

#[test]
fn classifies_remote() {
    let p = package_formatter("user/repo".to_string(), "remote".to_string());
    assert_eq!(p.command, PackageType::R);
    assert_eq!(p.install_command, SubPackageType::Remote);
}

#[test]
fn classifies_devtools() {
    let p = package_formatter("pkg".to_string(), "devtools".to_string());
    assert_eq!(p.command, PackageType::R);
    assert_eq!(p.install_command, SubPackageType::Devtools);
}

#[test]
fn classifies_bioconductor() {
    let p = package_formatter("edgeR".to_string(), "bioconductor".to_string());
    assert_eq!(p.command, PackageType::R);
    assert_eq!(p.install_command, SubPackageType::Bioconductor);
}

#[test]
fn classifies_unrecognized() {
    let p = package_formatter("a,b".to_string(), "unknown-xyz".to_string());
    assert_eq!(p.command, PackageType::NotImplemented);
    assert_eq!(p.install_command, SubPackageType::NotExist);
}

#[test]
fn classification_is_case_sensitive() {
    let p = package_formatter("numpy".to_string(), "PIP".to_string());
    assert_eq!(p.command, PackageType::NotImplemented);
    assert_eq!(p.install_command, SubPackageType::NotExist);
}

#[test]
fn subcommand_names() {
    assert_eq!(SubPackageType::Base.subcommand(), "install.packages");
    assert_eq!(SubPackageType::Remote.subcommand(), "remote::install_github");
    assert_eq!(SubPackageType::Bioconductor.subcommand(), "BiocManager::install");
    assert_eq!(SubPackageType::Devtools.subcommand(), "devtools::install_github");
    assert_eq!(SubPackageType::NotExist.subcommand(), "");
}

#[test]
fn pip_descriptor() {
    let p = package_formatter("numpy, pandas".to_string(), "pip".to_string());
    let d = p.run_command();
    assert_eq!(d.executable, "pip");
    assert_eq!(d.arguments, vec!["install", "numpy", "pandas"]);
}

#[test]
fn base_descriptor() {
    let p = package_formatter("ggplot2".to_string(), "base".to_string());
    let d = p.run_command();
    assert_eq!(d.executable, "R");
    assert_eq!(
        d.arguments,
        vec!["--no-save", "-e", "install.packages(c('ggplot2'))"]
    );
}

#[test]
fn remote_expression() {
    let p = package_formatter("user/repo, user2/repo2".to_string(), "remote".to_string());
    let d = p.run_command();
    assert_eq!(d.executable, "R");
    assert_eq!(
        d.arguments[2],
        "remote::install_github(c('user/repo','user2/repo2'))"
    );
}

#[test]
fn devtools_expression() {
    let p = package_formatter("r-lib/devtools".to_string(), "devtools".to_string());
    let d = p.run_command();
    assert_eq!(
        d.arguments,
        vec!["--no-save", "-e", "devtools::install_github(c('r-lib/devtools'))"]
    );
}

#[test]
fn bioconductor_expression() {
    let p = package_formatter("edgeR, limma".to_string(), "bioconductor".to_string());
    let d = p.run_command();
    assert_eq!(
        d.arguments,
        vec!["--no-save", "-e", "BiocManager::install(c('edgeR','limma'))"]
    );
}

#[test]
fn unknown_echoes_packages() {
    let p = package_formatter("a,b".to_string(), "unknown-xyz".to_string());
    let d = p.run_command();
    assert_eq!(d.executable, "echo");
    assert_eq!(d.arguments, vec!["a", "b"]);
}

#[test]
fn parse_trims_and_keeps_order() {
    let parsed = parse_packages(" numpy ,  pandas\t, scipy");
    assert_eq!(parsed, vec!["numpy", "pandas", "scipy"]);
}

#[test]
fn parse_keeps_empty_entries() {
    assert_eq!(parse_packages("a,,b"), vec!["a", "", "b"]);
    assert_eq!(parse_packages(""), vec![""]);
    assert_eq!(parse_packages(",  ,"), vec!["", "", ""]);
}

#[test]
fn parse_keeps_duplicates() {
    assert_eq!(parse_packages("a,a"), vec!["a", "a"]);
}

#[test]
fn parse_join_parse_round_trip() {
    let once = parse_packages(" a , b,  c ");
    let joined = join_with_commas(&once);
    assert_eq!(joined, "a,b,c");
    let twice = parse_packages(&joined);
    assert_eq!(once, twice);
}

#[test]
fn trim_removes_unicode_whitespace() {
    assert_eq!(trim("\u{3000}\u{00A0} x \t\r\n"), "x");
    assert_eq!(trim("   "), "");
    assert_eq!(trim("a b"), "a b");
}
