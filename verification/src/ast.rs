use vstd::prelude::*;

verus! {

/// Visibility of the generated capability and marker types. The scope text of
/// a restricted visibility is carried verbatim and echoed into the output; the
/// engine never interprets it.
#[derive(Debug)]
pub enum Visibility {
    /// No visibility token: private to the surrounding module.
    Private,
    /// `pub`.
    Public,
    /// `pub(...)` with the text between the parentheses.
    Scoped(String),
}

pub ghost enum VisibilityV {
    Private,
    Public,
    Scoped(Seq<char>),
}

impl View for Visibility {
    type V = VisibilityV;

    open spec fn view(&self) -> VisibilityV {
        match self {
            Visibility::Private => VisibilityV::Private,
            Visibility::Public => VisibilityV::Public,
            Visibility::Scoped(s) => VisibilityV::Scoped(s@),
        }
    }
}

/// One bound expression of a blanket request: a named capability or a
/// lifetime (carried without its leading quote).
#[derive(Debug)]
pub enum Bound {
    Trait(String),
    Lifetime(String),
}

pub ghost enum BoundV {
    Trait(Seq<char>),
    Lifetime(Seq<char>),
}

impl View for Bound {
    type V = BoundV;

    open spec fn view(&self) -> BoundV {
        match self {
            Bound::Trait(s) => BoundV::Trait(s@),
            Bound::Lifetime(s) => BoundV::Lifetime(s@),
        }
    }
}

/// One token of the two front-end grammars, as the lexer hands it to a parser.
#[derive(Debug)]
pub enum Token {
    /// An identifier.
    Ident(String),
    /// A lifetime, without its leading quote.
    Lifetime(String),
    /// One attribute annotation, verbatim, including the `#[` and `]`.
    Attr(String),
    /// A visibility token.
    Vis(Visibility),
    /// `=`
    Eq,
    /// `|`
    Pipe,
    /// `+`
    Plus,
}

pub ghost enum TokenV {
    Ident(Seq<char>),
    Lifetime(Seq<char>),
    Attr(Seq<char>),
    Vis(VisibilityV),
    Eq,
    Pipe,
    Plus,
}

impl View for Token {
    type V = TokenV;

    open spec fn view(&self) -> TokenV {
        match self {
            Token::Ident(s) => TokenV::Ident(s@),
            Token::Lifetime(s) => TokenV::Lifetime(s@),
            Token::Attr(s) => TokenV::Attr(s@),
            Token::Vis(v) => TokenV::Vis(v@),
            Token::Eq => TokenV::Eq,
            Token::Pipe => TokenV::Pipe,
            Token::Plus => TokenV::Plus,
        }
    }
}

/// The view of a token sequence.
pub open spec fn tseq(ts: Seq<Token>) -> Seq<TokenV> {
    ts.map_values(|t: Token| t@)
}

/// The view of a sequence of strings.
pub open spec fn sseq(ss: Seq<String>) -> Seq<Seq<char>> {
    ss.map_values(|s: String| s@)
}

/// The view of a sequence of bounds.
pub open spec fn bseq(bs: Seq<Bound>) -> Seq<BoundV> {
    bs.map_values(|b: Bound| b@)
}

/// A parse failure. For a parser the position is the index of the offending
/// token (the token count when the input ended too early); for the lexer it
/// is the index of the offending character.
#[derive(Debug)]
pub struct SyntaxError {
    pub position: usize,
}

/// A parsed union request: attributes and visibility to put on every marker
/// type, the capability name, and the variant names in input order.
#[derive(Debug)]
pub struct Single {
    pub attributes: Vec<String>,
    pub visibility: Visibility,
    pub trait_name: String,
    pub struct_names: Vec<String>,
}

pub ghost struct SingleV {
    pub attributes: Seq<Seq<char>>,
    pub visibility: VisibilityV,
    pub trait_name: Seq<char>,
    pub struct_names: Seq<Seq<char>>,
}

impl View for Single {
    type V = SingleV;

    open spec fn view(&self) -> SingleV {
        SingleV {
            attributes: sseq(self.attributes@),
            visibility: self.visibility@,
            trait_name: self.trait_name@,
            struct_names: sseq(self.struct_names@),
        }
    }
}

/// A parsed blanket request: visibility, the new capability's name, and the
/// bound conjunction in input order (at least one bound).
#[derive(Debug)]
pub struct Blanket {
    pub visibility: Visibility,
    pub trait_name: String,
    pub bounds: Vec<Bound>,
}

pub ghost struct BlanketV {
    pub visibility: VisibilityV,
    pub trait_name: Seq<char>,
    pub bounds: Seq<BoundV>,
}

impl View for Blanket {
    type V = BlanketV;

    open spec fn view(&self) -> BlanketV {
        BlanketV {
            visibility: self.visibility@,
            trait_name: self.trait_name@,
            bounds: bseq(self.bounds@),
        }
    }
}

/// One generated declaration. The generators emit sequences of these; the
/// renderer turns them into source text.
#[derive(Debug)]
pub enum Decl {
    /// `<vis> trait <name>: <supers> {}`
    Capability { vis: Visibility, name: String, supers: Vec<Bound> },
    /// `<attrs> <vis> enum <name> {}` — an empty marker type.
    Marker { attrs: Vec<String>, vis: Visibility, name: String },
    /// `impl <cap> for <target> {}`
    CapImpl { cap: String, target: String },
    /// `impl<T> <cap> for T where T: <bounds> {}` — one universal rule.
    BlanketImpl { cap: String, bounds: Vec<Bound> },
    /// `mod <mod_name> { pub trait <seal_cap> {} impl <seal_cap> for super::<t> {} .. }`
    SealModule { mod_name: String, seal_cap: String, targets: Vec<String> },
}

pub ghost enum DeclV {
    Capability { vis: VisibilityV, name: Seq<char>, supers: Seq<BoundV> },
    Marker { attrs: Seq<Seq<char>>, vis: VisibilityV, name: Seq<char> },
    CapImpl { cap: Seq<char>, target: Seq<char> },
    BlanketImpl { cap: Seq<char>, bounds: Seq<BoundV> },
    SealModule { mod_name: Seq<char>, seal_cap: Seq<char>, targets: Seq<Seq<char>> },
}

impl View for Decl {
    type V = DeclV;

    open spec fn view(&self) -> DeclV {
        match self {
            Decl::Capability { vis, name, supers } => DeclV::Capability {
                vis: vis@,
                name: name@,
                supers: bseq(supers@),
            },
            Decl::Marker { attrs, vis, name } => DeclV::Marker {
                attrs: sseq(attrs@),
                vis: vis@,
                name: name@,
            },
            Decl::CapImpl { cap, target } => DeclV::CapImpl { cap: cap@, target: target@ },
            Decl::BlanketImpl { cap, bounds } => DeclV::BlanketImpl {
                cap: cap@,
                bounds: bseq(bounds@),
            },
            Decl::SealModule { mod_name, seal_cap, targets } => DeclV::SealModule {
                mod_name: mod_name@,
                seal_cap: seal_cap@,
                targets: sseq(targets@),
            },
        }
    }
}

/// The view of a declaration sequence.
pub open spec fn dseq(ds: Seq<Decl>) -> Seq<DeclV> {
    ds.map_values(|d: Decl| d@)
}

impl Visibility {
    /// A copy whose view equals this value's view.
    pub fn duplicate(&self) -> (r: Visibility)
        ensures
            r@ == self@,
    {
        match self {
            Visibility::Private => Visibility::Private,
            Visibility::Public => Visibility::Public,
            Visibility::Scoped(s) => Visibility::Scoped(s.clone()),
        }
    }

    /// The visibility as source text: nothing, `pub`, or `pub(<scope>)`.
    pub fn as_text(&self) -> (r: String)
        ensures
            r@ == spec_vis_text(self@),
    {
        match self {
            Visibility::Private => String::new(),
            Visibility::Public => "pub".to_owned(),
            Visibility::Scoped(s) => {
                let mut t = "pub(".to_owned();
                t.append(s.as_str());
                t.append(")");
                t
            },
        }
    }
}

/// The source text of a visibility.
pub open spec fn spec_vis_text(v: VisibilityV) -> Seq<char> {
    match v {
        VisibilityV::Private => Seq::<char>::empty(),
        VisibilityV::Public => "pub"@,
        VisibilityV::Scoped(s) => "pub("@ + s + ")"@,
    }
}

impl Bound {
    /// A copy whose view equals this value's view.
    pub fn duplicate(&self) -> (r: Bound)
        ensures
            r@ == self@,
    {
        match self {
            Bound::Trait(s) => Bound::Trait(s.clone()),
            Bound::Lifetime(s) => Bound::Lifetime(s.clone()),
        }
    }

    /// The bound as source text: the capability path, or the lifetime with
    /// its leading quote restored.
    pub fn as_text(&self) -> (r: String)
        ensures
            r@ == spec_bound_text(self@),
    {
        match self {
            Bound::Trait(s) => s.clone(),
            Bound::Lifetime(s) => {
                let mut t = "'".to_owned();
                t.append(s.as_str());
                t
            },
        }
    }
}

/// The source text of a bound.
pub open spec fn spec_bound_text(b: BoundV) -> Seq<char> {
    match b {
        BoundV::Trait(s) => s,
        BoundV::Lifetime(s) => "'"@ + s,
    }
}

/// A copy of a string vector whose element views equal the input's.
pub fn duplicate_strings(v: &Vec<String>) -> (r: Vec<String>)
    ensures
        sseq(r@) == sseq(v@),
{
    let mut r: Vec<String> = Vec::new();
    let mut i: usize = 0;
    while i < v.len()
        invariant
            i <= v.len(),
            r@.len() == i,
            forall|j: int| 0 <= j < i ==> r@[j]@ == v@[j]@,
        decreases v.len() - i,
    {
        r.push(v[i].clone());
        i = i + 1;
    }
    proof {
        assert(sseq(r@) =~= sseq(v@));
    }
    r
}

/// A copy of a bound vector whose element views equal the input's.
pub fn duplicate_bounds(v: &Vec<Bound>) -> (r: Vec<Bound>)
    ensures
        bseq(r@) == bseq(v@),
{
    let mut r: Vec<Bound> = Vec::new();
    let mut i: usize = 0;
    while i < v.len()
        invariant
            i <= v.len(),
            r@.len() == i,
            forall|j: int| 0 <= j < i ==> r@[j]@ == v@[j]@,
        decreases v.len() - i,
    {
        r.push(v[i].duplicate());
        i = i + 1;
    }
    proof {
        assert(bseq(r@) =~= bseq(v@));
    }
    r
}

} // verus!
