//! Built-in registry of common Go tools. Keeps `gv add tool gopls` short.
//!
//! Users can always specify a full package path explicitly in `gv.toml`,
//! in which case the registry is bypassed.

use vstd::prelude::*;

use crate::text;

verus! {

/// A tool and the Go package that it is built from.
#[derive(Debug, Clone, Copy)]
pub struct RegistryEntry {
    pub name: &'static str,
    pub package: &'static str,
}

/// The tools that `gv` knows: name and package path.
pub open spec fn entries() -> Seq<(Seq<char>, Seq<char>)> {
    seq![
        ("gopls"@, "golang.org/x/tools/gopls"@),
        ("goimports"@, "golang.org/x/tools/cmd/goimports"@),
        ("staticcheck"@, "honnef.co/go/tools/cmd/staticcheck"@),
        ("golangci-lint"@, "github.com/golangci/golangci-lint/cmd/golangci-lint"@),
        ("dlv"@, "github.com/go-delve/delve/cmd/dlv"@),
        ("mockgen"@, "go.uber.org/mock/mockgen"@),
        ("sqlc"@, "github.com/sqlc-dev/sqlc/cmd/sqlc"@),
        ("buf"@, "github.com/bufbuild/buf/cmd/buf"@),
        ("air"@, "github.com/air-verse/air"@),
        ("protoc-gen-go"@, "google.golang.org/protobuf/cmd/protoc-gen-go"@),
        ("protoc-gen-go-grpc"@, "google.golang.org/grpc/cmd/protoc-gen-go-grpc"@),
        ("wire"@, "github.com/google/wire/cmd/wire"@),
        ("swag"@, "github.com/swaggo/swag/cmd/swag"@),
        ("migrate"@, "github.com/golang-migrate/migrate/v4/cmd/migrate"@),
        ("goreleaser"@, "github.com/goreleaser/goreleaser/v2"@),
    ]
}

impl View for RegistryEntry {
    type V = (Seq<char>, Seq<char>);

    open spec fn view(&self) -> (Seq<char>, Seq<char>) {
        (self.name@, self.package@)
    }
}

/// The package of the first entry, from `i` on, with the name.
pub open spec fn package_from(
    all: Seq<(Seq<char>, Seq<char>)>,
    name: Seq<char>,
    i: int,
) -> Option<Seq<char>>
    decreases all.len() - i,
{
    if i < 0 || i >= all.len() {
        None
    } else if all[i].0 == name {
        Some(all[i].1)
    } else {
        package_from(all, name, i + 1)
    }
}

/// The package that the registry has for a tool.
pub open spec fn known_package(name: Seq<char>) -> Option<Seq<char>> {
    package_from(entries(), name, 0)
}

/// Every tool of the registry.
pub fn all() -> (r: Vec<RegistryEntry>)
    ensures
        r@.map_values(|e: RegistryEntry| e@) == entries(),
{
    let r = vec![
        RegistryEntry { name: "gopls", package: "golang.org/x/tools/gopls" },
        RegistryEntry { name: "goimports", package: "golang.org/x/tools/cmd/goimports" },
        RegistryEntry { name: "staticcheck", package: "honnef.co/go/tools/cmd/staticcheck" },
        RegistryEntry {
            name: "golangci-lint",
            package: "github.com/golangci/golangci-lint/cmd/golangci-lint",
        },
        RegistryEntry { name: "dlv", package: "github.com/go-delve/delve/cmd/dlv" },
        RegistryEntry { name: "mockgen", package: "go.uber.org/mock/mockgen" },
        RegistryEntry { name: "sqlc", package: "github.com/sqlc-dev/sqlc/cmd/sqlc" },
        RegistryEntry { name: "buf", package: "github.com/bufbuild/buf/cmd/buf" },
        RegistryEntry { name: "air", package: "github.com/air-verse/air" },
        RegistryEntry {
            name: "protoc-gen-go",
            package: "google.golang.org/protobuf/cmd/protoc-gen-go",
        },
        RegistryEntry {
            name: "protoc-gen-go-grpc",
            package: "google.golang.org/grpc/cmd/protoc-gen-go-grpc",
        },
        RegistryEntry { name: "wire", package: "github.com/google/wire/cmd/wire" },
        RegistryEntry { name: "swag", package: "github.com/swaggo/swag/cmd/swag" },
        RegistryEntry {
            name: "migrate",
            package: "github.com/golang-migrate/migrate/v4/cmd/migrate",
        },
        RegistryEntry { name: "goreleaser", package: "github.com/goreleaser/goreleaser/v2" },
    ];
    r
}

/// The entry of a tool, where the registry has one.
pub fn lookup(name: &str) -> (r: Option<RegistryEntry>)
    ensures
        r is Some <==> known_package(name@) is Some,
        r matches Some(e) ==> e.name@ == name@ && known_package(name@) == Some(e.package@),
{
    let list = all();
    let mut i: usize = 0;
    let ghost views = list@.map_values(|e: RegistryEntry| e@);
    while i < list.len()
        invariant
            i <= list@.len(),
            views == list@.map_values(|e: RegistryEntry| e@),
            known_package(name@) == package_from(views, name@, i as int),
        decreases list@.len() - i,
    {
        assert(views[i as int] == list@[i as int]@);
        if text::same(list[i].name, name) {
            return Some(list[i]);
        }
        i = i + 1;
    }
    None
}

proof fn lemma_package_from_is(
    all: Seq<(Seq<char>, Seq<char>)>,
    from: int,
    i: int,
)
    requires
        0 <= from <= i < all.len(),
        forall|j: int| from <= j < i ==> (#[trigger] all[j]).0 != all[i].0,
    ensures
        package_from(all, all[i].0, from) == Some(all[i].1),
    decreases i - from,
{
    if from < i {
        lemma_package_from_is(all, from + 1, i);
    }
}

/// What tells the names of the registry apart.
spec fn mark(name: Seq<char>) -> (nat, char, char) {
    (name.len(), name[0], name[1])
}

/// No two tools of the registry share a name, so each is found under its own.
pub proof fn law_every_entry_is_found(i: int)
    requires
        0 <= i < entries().len(),
    ensures
        known_package(entries()[i].0) == Some(entries()[i].1),
        forall|j: int| 0 <= j < entries().len() && j != i ==> (#[trigger] entries()[j]).0
            != entries()[i].0,
{
    reveal_strlit("gopls");
    reveal_strlit("goimports");
    reveal_strlit("staticcheck");
    reveal_strlit("golangci-lint");
    reveal_strlit("dlv");
    reveal_strlit("mockgen");
    reveal_strlit("sqlc");
    reveal_strlit("buf");
    reveal_strlit("air");
    reveal_strlit("protoc-gen-go");
    reveal_strlit("protoc-gen-go-grpc");
    reveal_strlit("wire");
    reveal_strlit("swag");
    reveal_strlit("migrate");
    reveal_strlit("goreleaser");
    let all = entries();
    assert(mark(all[0].0) == (5nat, 'g', 'o'));
    assert(mark(all[1].0) == (9nat, 'g', 'o'));
    assert(mark(all[2].0) == (11nat, 's', 't'));
    assert(mark(all[3].0) == (13nat, 'g', 'o'));
    assert(mark(all[4].0) == (3nat, 'd', 'l'));
    assert(mark(all[5].0) == (7nat, 'm', 'o'));
    assert(mark(all[6].0) == (4nat, 's', 'q'));
    assert(mark(all[7].0) == (3nat, 'b', 'u'));
    assert(mark(all[8].0) == (3nat, 'a', 'i'));
    assert(mark(all[9].0) == (13nat, 'p', 'r'));
    assert(mark(all[10].0) == (18nat, 'p', 'r'));
    assert(mark(all[11].0) == (4nat, 'w', 'i'));
    assert(mark(all[12].0) == (4nat, 's', 'w'));
    assert(mark(all[13].0) == (7nat, 'm', 'i'));
    assert(mark(all[14].0) == (10nat, 'g', 'o'));
    assert forall|j: int| 0 <= j < all.len() && j != i implies (#[trigger] all[j]).0 != all[i].0 by {
        assert(mark(all[j].0) != mark(all[i].0));
    }
    lemma_package_from_is(all, 0, i);
}

} // verus!
