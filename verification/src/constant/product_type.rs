use crate::error::{AppError, AppErrorCode};
use vstd::prelude::*;
use vstd::std_specs::convert::FromSpecImpl;
use vstd::string::StringExecFns;

verus! {

/// Kind of a saleable product.  Kinds are stored as one octet: `1` is an
/// item, `2` a package, and any other octet is kept as it is.
#[derive(Debug, Clone, Copy, PartialEq, Eq, Hash, Structural)]
pub enum ProductType {
    Item,
    Package,
    Unknown(u8),
}

impl ProductType {
    /// The kind that the octet `v` stands for.
    pub open spec fn of_code(v: u8) -> ProductType {
        if v == 1 {
            ProductType::Item
        } else if v == 2 {
            ProductType::Package
        } else {
            ProductType::Unknown(v)
        }
    }

    /// The octet that stands for this kind.
    pub open spec fn code(self) -> u8 {
        match self {
            ProductType::Item => 1,
            ProductType::Package => 2,
            ProductType::Unknown(v) => v,
        }
    }

    /// Whether this value is the one that its own octet stands for, which
    /// holds of all but `Unknown(1)` and `Unknown(2)`.
    pub open spec fn canonical(self) -> bool {
        self != ProductType::Unknown(1) && self != ProductType::Unknown(2)
    }

    /// The octet that stands for this kind.
    pub fn to_code(&self) -> (v: u8)
        ensures
            v == self.code(),
    {
        match self {
            ProductType::Item => 1,
            ProductType::Package => 2,
            ProductType::Unknown(v) => *v,
        }
    }

    /// What parsing the text `s` gives, where `parsed` is the octet that
    /// the text writes or the reason why it writes none.
    pub open spec fn parse_outcome(s: Seq<char>, parsed: Result<u8, Seq<char>>) -> Result<
        ProductType,
        Seq<char>,
    > {
        match parsed {
            Ok(v) => Ok(ProductType::of_code(v)),
            Err(e) => Err("product-type, actual:"@ + s + ", error:"@ + e),
        }
    }

    /// Turns the outcome of reading `s` as an octet into a product kind, or
    /// into a report of corrupt data that quotes the text and the reason.
    pub fn from_parsed(s: &str, parsed: Result<u8, String>) -> (r: Result<ProductType, AppError>)
        ensures
            match parsed {
                Ok(v) => r == Ok::<ProductType, AppError>(ProductType::of_code(v)),
                Err(why) => r matches Err(e) && e.is(
                    AppErrorCode::DataCorruption,
                    "product-type, actual:"@ + s@ + ", error:"@ + why@,
                ),
            },
    {
        match parsed {
            Ok(v) => Ok(ProductType::from(v)),
            Err(why) => {
                let detail = String::from_str("product-type, actual:").concat(s).concat(
                    ", error:",
                ).concat(why.as_str());
                Err(AppError::new(AppErrorCode::DataCorruption, detail))
            },
        }
    }

    /// Parses the decimal text of an octet into a product kind.
    pub fn parse_text(s: &str) -> (r: Result<ProductType, AppError>)
        ensures
            match octet_parsed(s@) {
                Ok(v) => r == Ok::<ProductType, AppError>(ProductType::of_code(v)),
                Err(why) => r matches Err(e) && e.is(
                    AppErrorCode::DataCorruption,
                    "product-type, actual:"@ + s@ + ", error:"@ + why,
                ),
            },
    {
        let parsed = parse_octet(s);
        ProductType::from_parsed(s, parsed)
    }
}

impl From<u8> for ProductType {
    fn from(value: u8) -> (r: Self) {
        match value {
            1 => ProductType::Item,
            2 => ProductType::Package,
            _ => ProductType::Unknown(value),
        }
    }
}

impl FromSpecImpl<u8> for ProductType {
    open spec fn obeys_from_spec() -> bool {
        true
    }

    open spec fn from_spec(v: u8) -> Self {
        ProductType::of_code(v)
    }
}

impl From<ProductType> for u8 {
    fn from(value: ProductType) -> (r: u8) {
        match value {
            ProductType::Unknown(v) => v,
            ProductType::Item => 1,
            ProductType::Package => 2,
        }
    }
}

impl FromSpecImpl<ProductType> for u8 {
    open spec fn obeys_from_spec() -> bool {
        true
    }

    open spec fn from_spec(v: ProductType) -> Self {
        v.code()
    }
}

impl std::str::FromStr for ProductType {
    type Err = AppError;

    /// Parses the decimal text of an octet into a product kind, as
    /// `parse_text` does.
    fn from_str(s: &str) -> (r: Result<Self, Self::Err>)
        ensures
            match octet_parsed(s@) {
                Ok(v) => r == Ok::<ProductType, AppError>(ProductType::of_code(v)),
                Err(why) => r matches Err(e) && e.is(
                    AppErrorCode::DataCorruption,
                    "product-type, actual:"@ + s@ + ", error:"@ + why,
                ),
            },
    {
        ProductType::parse_text(s)
    }
}

/// What `str::parse::<u8>` makes of a text: the octet that it writes in
/// decimal, or the message of the error that says why it writes none.
pub uninterp spec fn octet_parsed(s: Seq<char>) -> Result<u8, Seq<char>>;

/// `str::parse::<u8>`, with the error turned into its message.  The outcome
/// depends on the text alone.
#[verifier::external_body]
fn parse_octet(s: &str) -> (r: Result<u8, String>)
    ensures
        match r {
            Ok(v) => octet_parsed(s@) == Ok::<u8, Seq<char>>(v),
            Err(e) => octet_parsed(s@) == Err::<u8, Seq<char>>(e@),
        },
{
    match s.parse::<u8>() {
        Ok(v) => Ok(v),
        Err(e) => Err(e.to_string()),
    }
}

/// The octet of the kind that an octet stands for is that octet.
pub proof fn lemma_code_of_code(v: u8)
    ensures
        ProductType::of_code(v).code() == v,
        ProductType::of_code(v).canonical(),
{
}

/// A kind is the one that its octet stands for, unless it is `Unknown(1)`
/// or `Unknown(2)`.
pub proof fn lemma_of_code_code(p: ProductType)
    requires
        p.canonical(),
    ensures
        ProductType::of_code(p.code()) == p,
{
}

} // verus!
