//! Classification of an install request into a package-manager family
//! and installation method, and construction of the command to run.

use crate::text::{join_commas, parse_packages, parse_spec, views_of};
use vstd::prelude::*;

verus! {

/// The package-manager family an install request is routed to.
#[derive(Clone, Copy, Debug, PartialEq, Eq, Structural)]
pub enum PackageType {
    Python,
    R,
    NotImplemented,
}

/// The installation method, meaningful only for the R family.
#[derive(Clone, Copy, Debug, PartialEq, Eq, Structural)]
pub enum SubPackageType {
    Base,
    Bioconductor,
    Devtools,
    Remote,
    NotExist,
}

impl SubPackageType {
    /// The fixed R installer-function name for this method.
    pub open spec fn subcommand_spec(&self) -> Seq<char> {
        match self {
            SubPackageType::Base => "install.packages"@,
            SubPackageType::Remote => "remote::install_github"@,
            SubPackageType::Bioconductor => "BiocManager::install"@,
            SubPackageType::Devtools => "devtools::install_github"@,
            SubPackageType::NotExist => ""@,
        }
    }

    pub fn subcommand(&self) -> (r: &str)
        ensures
            r@ == self.subcommand_spec(),
    {
        match self {
            SubPackageType::Base => "install.packages",
            SubPackageType::Remote => "remote::install_github",
            SubPackageType::Bioconductor => "BiocManager::install",
            SubPackageType::Devtools => "devtools::install_github",
            SubPackageType::NotExist => "",
        }
    }
}

/// The family an ecosystem tag classifies to.  Total: every tag,
/// recognized or not, yields a family.
pub open spec fn family_of(tag: Seq<char>) -> PackageType {
    if tag == "pip"@ {
        PackageType::Python
    } else if tag == "base"@ || tag == "remote"@ || tag == "devtools"@
        || tag == "bioconductor"@ {
        PackageType::R
    } else {
        PackageType::NotImplemented
    }
}

/// The installation method an ecosystem tag classifies to.  Total:
/// an unrecognized tag yields `NotExist`, never an error.
pub open spec fn method_of(tag: Seq<char>) -> SubPackageType {
    if tag == "base"@ {
        SubPackageType::Base
    } else if tag == "remote"@ {
        SubPackageType::Remote
    } else if tag == "devtools"@ {
        SubPackageType::Devtools
    } else if tag == "bioconductor"@ {
        SubPackageType::Bioconductor
    } else {
        SubPackageType::NotExist
    }
}

/// The five recognized tags classify exactly as the dispatch table
/// says, and to nothing else.
pub proof fn lemma_classification_table()
    ensures
        family_of("pip"@) == PackageType::Python && method_of("pip"@)
            == SubPackageType::NotExist,
        family_of("base"@) == PackageType::R && method_of("base"@) == SubPackageType::Base,
        family_of("remote"@) == PackageType::R && method_of("remote"@)
            == SubPackageType::Remote,
        family_of("devtools"@) == PackageType::R && method_of("devtools"@)
            == SubPackageType::Devtools,
        family_of("bioconductor"@) == PackageType::R && method_of("bioconductor"@)
            == SubPackageType::Bioconductor,
{
    reveal_strlit("pip");
    reveal_strlit("base");
    reveal_strlit("remote");
    reveal_strlit("devtools");
    reveal_strlit("bioconductor");
    assert("pip"@.len() == 3);
    assert("base"@.len() == 4);
    assert("remote"@.len() == 6);
    assert("devtools"@.len() == 8);
    assert("bioconductor"@.len() == 12);
}

/// Every tag outside the five recognized ones classifies to the
/// `NotImplemented` family and the `NotExist` method: classification
/// never fails.
pub proof fn lemma_unrecognized_tag(tag: Seq<char>)
    requires
        tag != "pip"@,
        tag != "base"@,
        tag != "remote"@,
        tag != "devtools"@,
        tag != "bioconductor"@,
    ensures
        family_of(tag) == PackageType::NotImplemented,
        method_of(tag) == SubPackageType::NotExist,
{
}

/// A classified install request: the family, the parsed package
/// names in request order, and the installation method.
#[derive(Debug)]
pub struct Package {
    pub command: PackageType,
    pub args: Vec<String>,
    pub install_command: SubPackageType,
}

/// Character-by-character string equality.
fn str_eq(a: &str, b: &str) -> (r: bool)
    ensures
        r == (a@ == b@),
{
    let n = a.unicode_len();
    if n != b.unicode_len() {
        return false;
    }
    let mut i: usize = 0;
    while i < n
        invariant
            0 <= i <= n,
            n == a@.len() == b@.len(),
            forall|j: int| 0 <= j < i ==> a@[j] == #[trigger] b@[j],
        decreases n - i,
    {
        if a.get_char(i) != b.get_char(i) {
            return false;
        }
        i = i + 1;
    }
    proof {
        assert(a@ =~= b@);
    }
    true
}

/// Classifies the ecosystem tag by the dispatch table and parses the
/// raw comma-separated package list; never fails, whatever the tag.
pub fn package_formatter(pkgs: String, pkg_type: String) -> (p: Package)
    ensures
        p.command == family_of(pkg_type@),
        p.install_command == method_of(pkg_type@),
        views_of(p.args@) == parse_spec(pkgs@),
{
    proof {
        lemma_classification_table();
    }
    let packages = parse_packages(pkgs.as_str());
    if str_eq(pkg_type.as_str(), "pip") {
        Package {
            command: PackageType::Python,
            args: packages,
            install_command: SubPackageType::NotExist,
        }
    } else if str_eq(pkg_type.as_str(), "base") {
        Package {
            command: PackageType::R,
            args: packages,
            install_command: SubPackageType::Base,
        }
    } else if str_eq(pkg_type.as_str(), "remote") {
        Package {
            command: PackageType::R,
            args: packages,
            install_command: SubPackageType::Remote,
        }
    } else if str_eq(pkg_type.as_str(), "devtools") {
        Package {
            command: PackageType::R,
            args: packages,
            install_command: SubPackageType::Devtools,
        }
    } else if str_eq(pkg_type.as_str(), "bioconductor") {
        Package {
            command: PackageType::R,
            args: packages,
            install_command: SubPackageType::Bioconductor,
        }
    } else {
        Package {
            command: PackageType::NotImplemented,
            args: packages,
            install_command: SubPackageType::NotExist,
        }
    }
}

/// The command to run: an executable name and its argument vector,
/// fully determined by the classified request.
#[derive(Debug)]
pub struct CommandDescriptor {
    pub executable: String,
    pub arguments: Vec<String>,
}

/// A package name wrapped in single quotes.  Nothing inside the name
/// is escaped: a name that itself contains a quote is embedded
/// verbatim, a known injection weakness that is part of the intended
/// behaviour rather than guarded against.
pub open spec fn quoted(p: Seq<char>) -> Seq<char> {
    "'"@ + p + "'"@
}

/// The single R expression handed to `R -e`: each package name
/// quoted, the names joined with commas, and the installer-function
/// name applied to the vector.
pub open spec fn r_expression(m: SubPackageType, pkgs: Seq<Seq<char>>) -> Seq<char> {
    m.subcommand_spec() + "(c("@ + join_commas(pkgs.map_values(|p: Seq<char>| quoted(p)))
        + "))"@
}

impl Package {
    /// The executable the family dispatches to.
    pub open spec fn spec_executable(&self) -> Seq<char> {
        match self.command {
            PackageType::Python => "pip"@,
            PackageType::R => "R"@,
            PackageType::NotImplemented => "echo"@,
        }
    }

    /// The argument vector: an embedded R expression for the R
    /// family, `install` plus discrete per-package arguments for
    /// Python, and the bare package list (a diagnostic echo) for an
    /// unrecognized family.
    pub open spec fn spec_arguments(&self) -> Seq<Seq<char>> {
        match self.command {
            PackageType::R => seq![
                "--no-save"@,
                "-e"@,
                r_expression(self.install_command, views_of(self.args@)),
            ],
            PackageType::Python => seq!["install"@] + views_of(self.args@),
            PackageType::NotImplemented => views_of(self.args@),
        }
    }

    /// Builds the command for this classified request.
    pub fn run_command(&self) -> (d: CommandDescriptor)
        ensures
            d.executable@ == self.spec_executable(),
            views_of(d.arguments@) == self.spec_arguments(),
    {
        match self.command {
            PackageType::R => {
                let ghost qs = views_of(self.args@).map_values(|p: Seq<char>| quoted(p));
                let mut expr = String::from_str(self.install_command.subcommand());
                expr.append("(c(");
                let ghost head = self.install_command.subcommand_spec() + "(c("@;
                proof {
                    assert(qs.take(0) =~= Seq::<Seq<char>>::empty());
                    assert(expr@ =~= head + join_commas(qs.take(0)));
                }
                let mut i: usize = 0;
                while i < self.args.len()
                    invariant
                        0 <= i <= self.args.len(),
                        qs == views_of(self.args@).map_values(|p: Seq<char>| quoted(p)),
                        qs.len() == self.args@.len(),
                        head == self.install_command.subcommand_spec() + "(c("@,
                        expr@ == head + join_commas(qs.take(i as int)),
                    decreases self.args.len() - i,
                {
                    if i > 0 {
                        expr.append(",");
                    }
                    expr.append("'");
                    expr.append(self.args[i].as_str());
                    expr.append("'");
                    proof {
                        reveal_strlit(",");
                        assert(","@ =~= seq![',']);
                        assert(qs[i as int] == quoted(self.args@[i as int]@));
                        let upto = qs.take(i + 1);
                        assert(upto.drop_last() =~= qs.take(i as int));
                        assert(upto.last() == qs[i as int]);
                        assert(expr@ =~= head + join_commas(upto));
                    }
                    i = i + 1;
                }
                expr.append("))");
                proof {
                    assert(qs.take(self.args@.len() as int) =~= qs);
                    assert(expr@ =~= r_expression(self.install_command, views_of(self.args@)));
                }
                let mut arguments: Vec<String> = Vec::new();
                arguments.push(String::from_str("--no-save"));
                arguments.push(String::from_str("-e"));
                arguments.push(expr);
                proof {
                    assert(views_of(arguments@) =~= self.spec_arguments());
                }
                CommandDescriptor { executable: String::from_str("R"), arguments }
            },
            PackageType::Python => {
                let mut arguments: Vec<String> = Vec::new();
                arguments.push(String::from_str("install"));
                let mut rest = clone_all(&self.args);
                proof {
                    assert(views_of(arguments@ + rest@) =~= seq!["install"@] + views_of(
                        self.args@,
                    ));
                }
                arguments.append(&mut rest);
                CommandDescriptor { executable: String::from_str("pip"), arguments }
            },
            PackageType::NotImplemented => {
                CommandDescriptor {
                    executable: String::from_str("echo"),
                    arguments: clone_all(&self.args),
                }
            },
        }
    }
}

/// An element-for-element copy of a vector of strings.
fn clone_all(v: &Vec<String>) -> (r: Vec<String>)
    ensures
        views_of(r@) == views_of(v@),
{
    let mut r: Vec<String> = Vec::new();
    proof {
        assert(views_of(r@) =~= views_of(v@).take(0));
    }
    let mut i: usize = 0;
    while i < v.len()
        invariant
            0 <= i <= v.len(),
            views_of(r@) == views_of(v@).take(i as int),
        decreases v.len() - i,
    {
        let cl = v[i].clone();
        proof {
            let vs = views_of(v@);
            assert(views_of(r@.push(cl)) =~= views_of(r@) + seq![cl@]);
            assert(views_of(r@) + seq![cl@] =~= vs.take(i + 1));
        }
        r.push(cl);
        i = i + 1;
    }
    proof {
        assert(views_of(v@).take(v@.len() as int) =~= views_of(v@));
    }
    r
}

} // verus!
