//! Turning an annotated handler into the record of its route.
//!
//! The input is what the annotations on a handler function say: the path
//! and method of the route, documentation lines, the models of path,
//! request and responses, and which of the handler's parameters carries
//! the path parameters and which the query.
//!
//! A parameter of a path pattern is a segment that begins with `:`, `*`
//! or `{`.

use crate::error::{Metadata, SpecError, SpecErrorView};
use crate::method::{valid_status, Method, StatusCode};
use crate::reflection::{lemma_tuple_view, types_view, Type, TypeView};
use crate::{
    responses_view, shape_view, text_view, PathSpec, PathSpecView, QuerySpec, QuerySpecView,
    RequestSpec, RequestSpecView, ResponseSpec, ResponseSpecView, RouteSpec, RouteSpecView,
};
use vstd::prelude::*;

verus! {

/// One argument of an annotation.
#[derive(Debug, PartialEq, Eq)]
pub enum Arg {
    /// A string literal, by its value.
    Str(String),
    /// An integer literal, by its decimal digits.
    Int(String),
    /// The path of a model, by the shape of the model.
    Model(Type),
    /// Anything else.
    Other,
}

/// Model of an `Arg`.
pub enum ArgView {
    Str(Seq<char>),
    Int(Seq<char>),
    Model(TypeView),
    Other,
}

impl View for Arg {
    type V = ArgView;

    open spec fn view(&self) -> ArgView {
        match self {
            Arg::Str(s) => ArgView::Str(s@),
            Arg::Int(digits) => ArgView::Int(digits@),
            Arg::Model(shape) => ArgView::Model(shape@),
            Arg::Other => ArgView::Other,
        }
    }
}

impl Clone for Arg {
    fn clone(&self) -> (copy: Arg)
        ensures
            copy@ == self@,
    {
        match self {
            Arg::Str(s) => Arg::Str(s.clone()),
            Arg::Int(digits) => Arg::Int(digits.clone()),
            Arg::Model(shape) => Arg::Model(shape.duplicate()),
            Arg::Other => Arg::Other,
        }
    }
}

/// The model of an optional argument.
pub open spec fn arg_view(arg: Option<Arg>) -> Option<ArgView> {
    match arg {
        Some(a) => Some(a@),
        None => None,
    }
}

/// Models of `args`, in order.
pub open spec fn args_view(args: Seq<Arg>) -> Seq<ArgView> {
    Seq::new(args.len(), |i: int| args[i]@)
}

/// The value of the decimal digit `c`, where it is one.
pub open spec fn digit(c: char) -> Option<nat> {
    if c == '0' {
        Some(0)
    } else if c == '1' {
        Some(1)
    } else if c == '2' {
        Some(2)
    } else if c == '3' {
        Some(3)
    } else if c == '4' {
        Some(4)
    } else if c == '5' {
        Some(5)
    } else if c == '6' {
        Some(6)
    } else if c == '7' {
        Some(7)
    } else if c == '8' {
        Some(8)
    } else if c == '9' {
        Some(9)
    } else {
        None
    }
}

/// Whether `text` holds decimal digits only.
pub open spec fn all_digits(text: Seq<char>) -> bool {
    forall|i: int| 0 <= i < text.len() ==> digit(#[trigger] text[i]) is Some
}

/// The number that the decimal digits `text` write.
pub open spec fn decimal(text: Seq<char>) -> nat
    decreases text.len(),
{
    if text.len() == 0 {
        0
    } else {
        decimal(text.drop_last()) * 10 + match digit(text.last()) {
            Some(d) => d,
            None => 0,
        }
    }
}

/// The 16-bit number that `text` writes in decimal, where it writes one:
/// at least one digit, digits only, and a value of at most 65535.
pub open spec fn decimal_u16(text: Seq<char>) -> Option<u16> {
    if text.len() > 0 && all_digits(text) && decimal(text) <= u16::MAX {
        Some(decimal(text) as u16)
    } else {
        None
    }
}

/// A longer run of digits writes no smaller a number than its beginning.
proof fn lemma_decimal_grows(text: Seq<char>, upto: int)
    requires
        0 <= upto <= text.len(),
    ensures
        decimal(text.subrange(0, upto)) <= decimal(text),
    decreases text.len() - upto,
{
    if upto < text.len() {
        lemma_decimal_grows(text, upto + 1);
        let longer = text.subrange(0, upto + 1);
        assert(longer.drop_last() =~= text.subrange(0, upto));
        assert(decimal(longer) >= decimal(longer.drop_last()) * 10) by {
            reveal_with_fuel(decimal, 1);
        }
    } else {
        assert(text.subrange(0, upto) =~= text);
    }
}

/// The value of the decimal digit `c`.
fn digit_of(c: char) -> (value: Option<u32>)
    ensures
        value is Some <==> digit(c) is Some,
        value is Some ==> value->0 == digit(c)->0,
{
    match c {
        '0' => Some(0),
        '1' => Some(1),
        '2' => Some(2),
        '3' => Some(3),
        '4' => Some(4),
        '5' => Some(5),
        '6' => Some(6),
        '7' => Some(7),
        '8' => Some(8),
        '9' => Some(9),
        _ => None,
    }
}

/// Reads `text` as a 16-bit number in decimal.
pub fn parse_u16(text: &str) -> (value: Option<u16>)
    ensures
        value == decimal_u16(text@),
{
    let len = text.unicode_len();
    if len == 0 {
        return None;
    }
    let mut acc: u32 = 0;
    let mut i: usize = 0;
    while i < len
        invariant
            i <= len,
            len == text@.len(),
            acc <= u16::MAX,
            acc == decimal(text@.subrange(0, i as int)),
            all_digits(text@.subrange(0, i as int)),
        decreases len - i,
    {
        let c = text.get_char(i);
        let ghost shorter = text@.subrange(0, i as int);
        let ghost longer = text@.subrange(0, i + 1);
        proof {
            assert(longer.drop_last() =~= shorter);
            assert(longer.last() == c);
        }
        match digit_of(c) {
            None => {
                assert(!all_digits(text@)) by {
                    assert(digit(text@[i as int]) is None);
                }
                return None;
            },
            Some(d) => {
                let next: u32 = acc * 10 + d;
                assert(next == decimal(longer)) by {
                    reveal_with_fuel(decimal, 1);
                }
                if next > 65535 {
                    proof {
                        lemma_decimal_grows(text@, i + 1);
                    }
                    return None;
                }
                acc = next;
                assert(all_digits(longer)) by {
                    assert forall|j: int| 0 <= j < longer.len() implies digit(
                        #[trigger] longer[j],
                    ) is Some by {
                        if j < i {
                            assert(longer[j] == shorter[j]);
                        }
                    }
                }
            },
        }
        i += 1;
    }
    assert(text@.subrange(0, len as int) =~= text@);
    Some(acc as u16)
}

/// Whether the character `c` opens a parameter of a path pattern.
pub open spec fn opens_param(c: char) -> bool {
    c == ':' || c == '*' || c == '{'
}

/// Whether a parameter of the pattern `path` begins at `at`: a segment
/// begins there, with a character that opens a parameter.
pub open spec fn param_at(path: Seq<char>, at: int) -> bool {
    &&& 0 <= at < path.len()
    &&& opens_param(path[at])
    &&& at == 0 || path[at - 1] == '/'
}

/// The number of parameters of the pattern `path` that begin before
/// `upto`.
pub open spec fn params_before(path: Seq<char>, upto: int) -> nat
    decreases upto,
{
    if upto <= 0 {
        0
    } else {
        params_before(path, upto - 1) + if param_at(path, upto - 1) {
            1nat
        } else {
            0nat
        }
    }
}

/// The number of parameters of the pattern `path`.
pub open spec fn param_count(path: Seq<char>) -> nat {
    params_before(path, path.len() as int)
}

/// Counts the parameters of the pattern `path`.
pub fn count_params(path: &str) -> (count: usize)
    ensures
        count == param_count(path@),
{
    let len = path.unicode_len();
    let mut count: usize = 0;
    let mut at_start = true;
    let mut i: usize = 0;
    while i < len
        invariant
            i <= len,
            len == path@.len(),
            count == params_before(path@, i as int),
            count <= i,
            at_start == (i == 0 || path@[i - 1] == '/'),
        decreases len - i,
    {
        let c = path.get_char(i);
        if at_start && (c == ':' || c == '*' || c == '{') {
            count += 1;
        }
        at_start = c == '/';
        i += 1;
    }
    count
}

/// An annotation on a handler function.
#[derive(Debug, PartialEq, Eq)]
pub enum HandlerAttr {
    /// A line of documentation.
    Doc(Arg),
    /// The models of the path parameters, in order.
    Path(Vec<Arg>),
    /// The model of the request body.
    Request { model: Option<Arg> },
    /// A response: its status, 200 where none is given, a description and
    /// the model of its body.
    Response { status: Option<Arg>, description: Option<Arg>, model: Option<Arg> },
    /// Any other annotation, by its name.
    Other(String),
}

/// Model of a `HandlerAttr`.
pub enum HandlerAttrView {
    Doc(ArgView),
    Path(Seq<ArgView>),
    Request { model: Option<ArgView> },
    Response { status: Option<ArgView>, description: Option<ArgView>, model: Option<ArgView> },
    Other(Seq<char>),
}

impl View for HandlerAttr {
    type V = HandlerAttrView;

    open spec fn view(&self) -> HandlerAttrView {
        match self {
            HandlerAttr::Doc(arg) => HandlerAttrView::Doc(arg@),
            HandlerAttr::Path(models) => HandlerAttrView::Path(args_view(models@)),
            HandlerAttr::Request { model } => HandlerAttrView::Request { model: arg_view(*model) },
            HandlerAttr::Response { status, description, model } => HandlerAttrView::Response {
                status: arg_view(*status),
                description: arg_view(*description),
                model: arg_view(*model),
            },
            HandlerAttr::Other(name) => HandlerAttrView::Other(name@),
        }
    }
}

impl HandlerAttrView {
    /// Whether the annotation stays on the handler: documentation and
    /// annotations that are not the route's do.
    pub open spec fn stays(self) -> bool {
        self is Doc || self is Other
    }
}

/// Models of `attrs`, in order.
pub open spec fn attrs_view(attrs: Seq<HandlerAttr>) -> Seq<HandlerAttrView> {
    Seq::new(attrs.len(), |i: int| attrs[i]@)
}

/// An annotation on a parameter of a handler function.
#[derive(Debug, PartialEq, Eq)]
pub enum ParamAttr {
    /// The parameter carries the path parameters.
    Path,
    /// The parameter carries the query.
    Query,
    /// Any other annotation, by its name.
    Other(String),
}

/// Model of a `ParamAttr`.
pub enum ParamAttrView {
    Path,
    Query,
    Other(Seq<char>),
}

impl View for ParamAttr {
    type V = ParamAttrView;

    open spec fn view(&self) -> ParamAttrView {
        match self {
            ParamAttr::Path => ParamAttrView::Path,
            ParamAttr::Query => ParamAttrView::Query,
            ParamAttr::Other(name) => ParamAttrView::Other(name@),
        }
    }
}

/// Models of `attrs`, in order.
pub open spec fn param_attrs_view(attrs: Seq<ParamAttr>) -> Seq<ParamAttrView> {
    Seq::new(attrs.len(), |i: int| attrs[i]@)
}

/// A parameter of a handler function.
#[derive(Debug, PartialEq, Eq)]
pub struct HandlerParam {
    pub attrs: Vec<ParamAttr>,
    /// The shape of the parameter's type.
    pub ty: Type,
}

/// Model of a `HandlerParam`.
pub struct HandlerParamView {
    pub attrs: Seq<ParamAttrView>,
    pub ty: TypeView,
}

impl View for HandlerParam {
    type V = HandlerParamView;

    open spec fn view(&self) -> HandlerParamView {
        HandlerParamView { attrs: param_attrs_view(self.attrs@), ty: self.ty@ }
    }
}

/// Models of `params`, in order.
pub open spec fn params_view(params: Seq<HandlerParam>) -> Seq<HandlerParamView> {
    Seq::new(params.len(), |i: int| params[i]@)
}

/// A handler function with its annotations.
#[derive(Debug, PartialEq, Eq)]
pub struct HandlerFn {
    pub name: String,
    /// The file that holds the handler.
    pub src_file: String,
    pub attrs: Vec<HandlerAttr>,
    pub params: Vec<HandlerParam>,
}

/// Model of a `HandlerFn`.
pub struct HandlerFnView {
    pub name: Seq<char>,
    pub src_file: Seq<char>,
    pub attrs: Seq<HandlerAttrView>,
    pub params: Seq<HandlerParamView>,
}

impl View for HandlerFn {
    type V = HandlerFnView;

    open spec fn view(&self) -> HandlerFnView {
        HandlerFnView {
            name: self.name@,
            src_file: self.src_file@,
            attrs: attrs_view(self.attrs@),
            params: params_view(self.params@),
        }
    }
}

/// What the annotations of a handler have said so far.
pub struct Gathered {
    /// The documentation lines, each closed by a line feed.
    pub doc: Seq<char>,
    /// The models of the path parameters.
    pub models: Seq<TypeView>,
    pub request: Option<RequestSpecView>,
    pub responses: Seq<ResponseSpecView>,
}

/// The status that a response annotation gives: 200 where it gives none.
pub open spec fn status_of(status: Option<ArgView>) -> Result<int, Metadata> {
    match status {
        None => Ok(200),
        Some(ArgView::Int(digits)) => match decimal_u16(digits) {
            None => Err(Metadata::StatusLiteral),
            Some(n) => if valid_status(n as int) {
                Ok(n as int)
            } else {
                Err(Metadata::StatusRange)
            },
        },
        Some(_) => Err(Metadata::StatusLiteral),
    }
}

/// The text that an optional string argument gives.
pub open spec fn text_of(arg: Option<ArgView>, piece: Metadata) -> Result<
    Option<Seq<char>>,
    Metadata,
> {
    match arg {
        None => Ok(None),
        Some(ArgView::Str(s)) => Ok(Some(s)),
        Some(_) => Err(piece),
    }
}

/// The shape that an optional model argument gives.
pub open spec fn model_of(arg: Option<ArgView>, piece: Metadata) -> Result<
    Option<TypeView>,
    Metadata,
> {
    match arg {
        None => Ok(None),
        Some(ArgView::Model(shape)) => Ok(Some(shape)),
        Some(_) => Err(piece),
    }
}

/// Whether `at` is the first of `args` that is not a model.
pub open spec fn first_not_model(args: Seq<ArgView>, at: int) -> bool {
    &&& 0 <= at < args.len()
    &&& !(args[at] is Model)
    &&& forall|j: int| 0 <= j < at ==> (#[trigger] args[j]) is Model
}

/// The shapes of `args`, where they are all models.
pub open spec fn models_of(args: Seq<ArgView>) -> Seq<TypeView> {
    Seq::new(args.len(), |i: int| args[i]->Model_0)
}

/// What has been gathered after the annotation `attr`, or the piece of it
/// that is malformed. A response is held to its status first, then to its
/// description, then to its model.
pub open spec fn gather(so_far: Gathered, attr: HandlerAttrView) -> Result<Gathered, Metadata> {
    match attr {
        HandlerAttrView::Doc(arg) => match arg {
            ArgView::Str(line) => Ok(Gathered { doc: so_far.doc + line + seq!['\n'], ..so_far }),
            _ => Err(Metadata::Doc),
        },
        HandlerAttrView::Path(args) => if exists|at: int| first_not_model(args, at) {
            Err(Metadata::PathModel)
        } else {
            Ok(Gathered { models: so_far.models + models_of(args), ..so_far })
        },
        HandlerAttrView::Request { model } => match model {
            Some(ArgView::Model(shape)) => Ok(
                Gathered {
                    request: Some(RequestSpecView { type_desc: shape, is_optional: false }),
                    ..so_far
                },
            ),
            _ => Err(Metadata::RequestModel),
        },
        HandlerAttrView::Response { status, description, model } => match status_of(status) {
            Err(piece) => Err(piece),
            Ok(code) => match text_of(description, Metadata::Description) {
                Err(piece) => Err(piece),
                Ok(text) => match model_of(model, Metadata::ResponseModel) {
                    Err(piece) => Err(piece),
                    Ok(shape) => Ok(
                        Gathered {
                            responses: so_far.responses.push(
                                ResponseSpecView {
                                    status: code,
                                    description: text,
                                    type_desc: shape,
                                },
                            ),
                            ..so_far
                        },
                    ),
                },
            },
        },
        HandlerAttrView::Other(_) => Ok(so_far),
    }
}

/// What the annotations `attrs` say, taken in order, or the first piece
/// among them that is malformed.
pub open spec fn gather_all(attrs: Seq<HandlerAttrView>) -> Result<Gathered, Metadata>
    decreases attrs.len(),
{
    if attrs.len() == 0 {
        Ok(
            Gathered {
                doc: Seq::empty(),
                models: Seq::empty(),
                request: None,
                responses: Seq::empty(),
            },
        )
    } else {
        match gather_all(attrs.drop_last()) {
            Err(piece) => Err(piece),
            Ok(so_far) => gather(so_far, attrs.last()),
        }
    }
}

/// What the annotations of a handler have said so far, as it is built.
struct Gathering {
    doc: String,
    models: Vec<Type>,
    request: Option<RequestSpec>,
    responses: Vec<ResponseSpec>,
}

impl View for Gathering {
    type V = Gathered;

    closed spec fn view(&self) -> Gathered {
        Gathered {
            doc: self.doc@,
            models: types_view(self.models@),
            request: match self.request {
                Some(r) => Some(r@),
                None => None,
            },
            responses: responses_view(self.responses@),
        }
    }
}

/// Reads the status of a response annotation.
fn read_status(status: &Option<Arg>) -> (code: Result<StatusCode, Metadata>)
    ensures
        match status_of(arg_view(*status)) {
            Ok(n) => code is Ok && code->Ok_0@ == n,
            Err(piece) => code == Err::<StatusCode, Metadata>(piece),
        },
{
    let number: u16 = match status {
        None => 200,
        Some(Arg::Int(digits)) => match parse_u16(digits.as_str()) {
            None => {
                return Err(Metadata::StatusLiteral);
            },
            Some(n) => n,
        },
        Some(_) => {
            return Err(Metadata::StatusLiteral);
        },
    };
    match StatusCode::from_u16(number) {
        Ok(code) => Ok(code),
        Err(_) => Err(Metadata::StatusRange),
    }
}

/// Reads an optional string argument.
fn read_text(arg: &Option<Arg>, piece: Metadata) -> (text: Result<Option<String>, Metadata>)
    ensures
        match text_of(arg_view(*arg), piece) {
            Ok(t) => text is Ok && text_view(text->Ok_0) == t,
            Err(p) => text == Err::<Option<String>, Metadata>(p),
        },
{
    match arg {
        None => Ok(None),
        Some(Arg::Str(s)) => Ok(Some(s.clone())),
        Some(_) => Err(piece),
    }
}

/// Reads an optional model argument.
fn read_model(arg: &Option<Arg>, piece: Metadata) -> (shape: Result<Option<Type>, Metadata>)
    ensures
        match model_of(arg_view(*arg), piece) {
            Ok(t) => shape is Ok && shape_view(shape->Ok_0) == t,
            Err(p) => shape == Err::<Option<Type>, Metadata>(p),
        },
{
    match arg {
        None => Ok(None),
        Some(Arg::Model(shape)) => Ok(Some(shape.duplicate())),
        Some(_) => Err(piece),
    }
}

/// Takes one annotation into what has been gathered.
fn gather_attr(so_far: &mut Gathering, attr: &HandlerAttr) -> (done: Result<(), Metadata>)
    ensures
        match gather(old(so_far)@, attr@) {
            Ok(g) => done is Ok && final(so_far)@ == g,
            Err(piece) => done == Err::<(), Metadata>(piece),
        },
{
    match attr {
        HandlerAttr::Doc(arg) => match arg {
            Arg::Str(line) => {
                so_far.doc.append(line.as_str());
                so_far.doc.append("\n");
                proof {
                    reveal_strlit("\n");
                    assert("\n"@ =~= seq!['\n']);
                    assert(so_far@.doc =~= old(so_far)@.doc + line@ + seq!['\n']);
                }
                Ok(())
            },
            _ => Err(Metadata::Doc),
        },
        HandlerAttr::Path(args) => {
            let ghost models = args_view(args@);
            let mut i: usize = 0;
            while i < args.len()
                invariant
                    i <= args.len(),
                    models == args_view(args@),
                    attr@ == HandlerAttrView::Path(models),
                    forall|j: int| 0 <= j < i ==> (#[trigger] models[j]) is Model,
                    so_far.doc == old(so_far).doc,
                    so_far.request == old(so_far).request,
                    so_far.responses == old(so_far).responses,
                    types_view(so_far.models@) == types_view(old(so_far).models@) + models_of(
                        models,
                    ).subrange(0, i as int),
                decreases args.len() - i,
            {
                match &args[i] {
                    Arg::Model(shape) => {
                        let ghost before = types_view(so_far.models@);
                        so_far.models.push(shape.duplicate());
                        proof {
                            assert(models[i as int] == args@[i as int]@);
                            assert(types_view(so_far.models@) =~= before.push(shape@));
                            assert(models_of(models).subrange(0, i + 1) =~= models_of(
                                models,
                            ).subrange(0, i as int).push(shape@));
                            assert(types_view(so_far.models@) =~= types_view(
                                old(so_far).models@,
                            ) + models_of(models).subrange(0, i + 1));
                        }
                    },
                    _ => {
                        proof {
                            assert(models[i as int] == args@[i as int]@);
                            assert(first_not_model(models, i as int));
                        }
                        return Err(Metadata::PathModel);
                    },
                }
                i += 1;
            }
            proof {
                assert forall|at: int| !first_not_model(models, at) by {
                    if 0 <= at < models.len() {
                        assert(models[at] is Model);
                    }
                }
                assert(models_of(models).subrange(0, args@.len() as int) =~= models_of(models));
            }
            Ok(())
        },
        HandlerAttr::Request { model } => match model {
            Some(Arg::Model(shape)) => {
                so_far.request = Some(
                    RequestSpec { type_desc: shape.duplicate(), is_optional: false },
                );
                Ok(())
            },
            _ => Err(Metadata::RequestModel),
        },
        HandlerAttr::Response { status, description, model } => {
            let code = match read_status(status) {
                Ok(code) => code,
                Err(piece) => {
                    return Err(piece);
                },
            };
            let text = match read_text(description, Metadata::Description) {
                Ok(text) => text,
                Err(piece) => {
                    return Err(piece);
                },
            };
            let shape = match read_model(model, Metadata::ResponseModel) {
                Ok(shape) => shape,
                Err(piece) => {
                    return Err(piece);
                },
            };
            let ghost before = responses_view(so_far.responses@);
            let response = ResponseSpec { status: code, description: text, type_desc: shape };
            so_far.responses.push(response);
            assert(responses_view(so_far.responses@) =~= before.push(response@));
            Ok(())
        },
        HandlerAttr::Other(_) => Ok(()),
    }
}

/// Takes the annotations `attrs` in order.
fn gather_attrs(attrs: &Vec<HandlerAttr>) -> (done: Result<Gathering, Metadata>)
    ensures
        match gather_all(attrs_view(attrs@)) {
            Ok(g) => done is Ok && done->Ok_0@ == g,
            Err(piece) => done is Err && done->Err_0 == piece,
        },
{
    let mut so_far = Gathering {
        doc: String::new(),
        models: Vec::new(),
        request: None,
        responses: Vec::new(),
    };
    let ghost models = attrs_view(attrs@);
    proof {
        assert(types_view(so_far.models@) =~= Seq::empty());
        assert(responses_view(so_far.responses@) =~= Seq::empty());
        assert(models.subrange(0, 0) =~= Seq::empty());
    }
    let mut i: usize = 0;
    while i < attrs.len()
        invariant
            i <= attrs.len(),
            models == attrs_view(attrs@),
            gather_all(models.subrange(0, i as int)) == Ok::<Gathered, Metadata>(so_far@),
        decreases attrs.len() - i,
    {
        proof {
            let longer = models.subrange(0, i + 1);
            assert(longer.drop_last() =~= models.subrange(0, i as int));
            assert(longer.last() == attrs@[i as int]@);
        }
        match gather_attr(&mut so_far, &attrs[i]) {
            Ok(()) => {},
            Err(piece) => {
                proof {
                    lemma_gather_fails(models, i + 1);
                }
                return Err(piece);
            },
        }
        i += 1;
    }
    assert(models.subrange(0, attrs@.len() as int) =~= models);
    Ok(so_far)
}

/// Once a piece is found malformed, it stays the answer however many
/// annotations follow.
proof fn lemma_gather_fails(attrs: Seq<HandlerAttrView>, upto: int)
    requires
        0 <= upto <= attrs.len(),
        gather_all(attrs.subrange(0, upto)) is Err,
    ensures
        gather_all(attrs) == gather_all(attrs.subrange(0, upto)),
    decreases attrs.len() - upto,
{
    if upto < attrs.len() {
        let longer = attrs.subrange(0, upto + 1);
        assert(longer.drop_last() =~= attrs.subrange(0, upto));
        lemma_gather_fails(attrs, upto + 1);
    } else {
        assert(attrs.subrange(0, upto) =~= attrs);
    }
}

impl Clone for ParamAttr {
    fn clone(&self) -> (copy: ParamAttr)
        ensures
            copy@ == self@,
    {
        match self {
            ParamAttr::Path => ParamAttr::Path,
            ParamAttr::Query => ParamAttr::Query,
            ParamAttr::Other(name) => ParamAttr::Other(name.clone()),
        }
    }
}

/// Whether `at` is the last parameter in `params` that bears `mark`.
pub open spec fn last_marked(params: Seq<HandlerParamView>, mark: ParamAttrView, at: int) -> bool {
    &&& 0 <= at < params.len()
    &&& params[at].attrs.contains(mark)
    &&& forall|j: int| at < j < params.len() ==> !(#[trigger] params[j]).attrs.contains(mark)
}

/// The shape of the last parameter in `params` that bears `mark`.
pub open spec fn marked(params: Seq<HandlerParamView>, mark: ParamAttrView) -> Option<TypeView> {
    if exists|at: int| last_marked(params, mark, at) {
        Some(params[choose|at: int| last_marked(params, mark, at)].ty)
    } else {
        None
    }
}

/// The shape of the path parameters that the models `models` stand for:
/// none for no model, the model itself for one, their tuple for more.
pub open spec fn params_of(models: Seq<TypeView>) -> Option<TypeView> {
    if models.len() == 0 {
        None
    } else if models.len() == 1 {
        Some(models[0])
    } else {
        Some(TypeView::Tuple(models))
    }
}

/// The number of path parameters that a value of the shape `shape`
/// provides, where the shape tells: one for a primitive, as many as it has
/// items for a tuple, and what the inner shape provides for an option.
pub open spec fn arity(shape: TypeView) -> Option<nat>
    decreases shape,
{
    match shape {
        TypeView::Primitive(_) => Some(1),
        TypeView::Tuple(items) => Some(items.len()),
        TypeView::Option(inner) => arity(*inner),
        _ => None,
    }
}

/// The annotations of `attrs` that stay on the handler, in order.
pub open spec fn staying(attrs: Seq<HandlerAttrView>) -> Seq<HandlerAttrView>
    decreases attrs.len(),
{
    if attrs.len() == 0 {
        Seq::empty()
    } else if attrs.last().stays() {
        staying(attrs.drop_last()).push(attrs.last())
    } else {
        staying(attrs.drop_last())
    }
}

/// The annotations of `attrs` that are not marks of the route, in order.
pub open spec fn unmarked(attrs: Seq<ParamAttrView>) -> Seq<ParamAttrView>
    decreases attrs.len(),
{
    if attrs.len() == 0 {
        Seq::empty()
    } else if attrs.last() is Other {
        unmarked(attrs.drop_last()).push(attrs.last())
    } else {
        unmarked(attrs.drop_last())
    }
}

/// The handler `item` without the annotations of the route.
pub open spec fn cleaned(item: HandlerFnView) -> HandlerFnView {
    HandlerFnView {
        attrs: staying(item.attrs),
        params: Seq::new(
            item.params.len(),
            |i: int|
                HandlerParamView { attrs: unmarked(item.params[i].attrs), ty: item.params[i].ty },
        ),
        ..item
    }
}

/// What `route` yields: the handler without the annotations of the route,
/// and the record of the route.
#[derive(Debug, PartialEq, Eq)]
pub struct RouteOutput {
    pub item: HandlerFn,
    pub spec: RouteSpec,
}

/// Model of a `RouteOutput`.
pub struct RouteOutputView {
    pub item: HandlerFnView,
    pub spec: RouteSpecView,
}

impl View for RouteOutput {
    type V = RouteOutputView;

    open spec fn view(&self) -> RouteOutputView {
        RouteOutputView { item: self.item@, spec: self.spec@ }
    }
}

/// The shape of the path parameters of a handler: that of the parameter
/// marked for the path, and without one, what the models of the path
/// annotations stand for.
pub open spec fn path_params(item: HandlerFnView, gathered: Gathered) -> Option<TypeView> {
    match marked(item.params, ParamAttrView::Path) {
        Some(shape) => Some(shape),
        None => params_of(gathered.models),
    }
}

/// Whether the pattern `path` has another number of parameters than
/// `params` provides. Where there is no shape, or the shape does not tell,
/// there is no mismatch.
pub open spec fn mismatch(path: Seq<char>, params: Option<TypeView>) -> bool {
    match params {
        Some(shape) => arity(shape) is Some && arity(shape)->0 != param_count(path),
        None => false,
    }
}

/// The record of the route that the handler `item` answers at `path`.
pub open spec fn record_of(
    method: Method,
    path: Seq<char>,
    item: HandlerFnView,
    gathered: Gathered,
) -> RouteSpecView {
    RouteSpecView {
        name: item.name,
        path: PathSpecView { value: path, params: path_params(item, gathered) },
        method,
        src_file: item.src_file,
        doc: if gathered.doc.len() == 0 {
            None
        } else {
            Some(gathered.doc)
        },
        query: match marked(item.params, ParamAttrView::Query) {
            Some(shape) => Some(QuerySpecView { type_desc: shape, is_optional: false }),
            None => None,
        },
        request: gathered.request,
        responses: gathered.responses,
    }
}

/// What `route` makes of a handler: the path must be a string, then the
/// annotations are taken in order, then the parameters of the path are
/// held against what the handler provides.
pub open spec fn route_of(method: Method, args: ArgView, item: HandlerFnView) -> Result<
    RouteOutputView,
    SpecErrorView,
> {
    match args {
        ArgView::Str(path) => match gather_all(item.attrs) {
            Err(piece) => Err(SpecErrorView::MalformedMetadata { route: item.name, piece }),
            Ok(gathered) => if mismatch(path, path_params(item, gathered)) {
                Err(
                    SpecErrorView::ConfigurationMismatch {
                        route: item.name,
                        path,
                        declared: param_count(path),
                        provided: arity(path_params(item, gathered)->0)->0,
                    },
                )
            } else {
                Ok(
                    RouteOutputView {
                        item: cleaned(item),
                        spec: record_of(method, path, item, gathered),
                    },
                )
            },
        },
        _ => Err(SpecErrorView::MalformedMetadata { route: item.name, piece: Metadata::Path }),
    }
}

/// Whether the annotations `attrs` hold `mark`.
fn bears(attrs: &Vec<ParamAttr>, want_path: bool) -> (found: bool)
    ensures
        found == param_attrs_view(attrs@).contains(
            if want_path {
                ParamAttrView::Path
            } else {
                ParamAttrView::Query
            },
        ),
{
    let ghost mark = if want_path {
        ParamAttrView::Path
    } else {
        ParamAttrView::Query
    };
    let ghost models = param_attrs_view(attrs@);
    let mut i: usize = 0;
    while i < attrs.len()
        invariant
            i <= attrs.len(),
            models == param_attrs_view(attrs@),
            mark == if want_path {
                ParamAttrView::Path
            } else {
                ParamAttrView::Query
            },
            forall|j: int| 0 <= j < i ==> models[j] != mark,
        decreases attrs.len() - i,
    {
        let hit = match &attrs[i] {
            ParamAttr::Path => want_path,
            ParamAttr::Query => !want_path,
            ParamAttr::Other(_) => false,
        };
        assert(models[i as int] == attrs@[i as int]@);
        if hit {
            return true;
        }
        i += 1;
    }
    false
}

/// The shape of the last parameter in `params` that is marked for the
/// path, or for the query.
fn find_marked(params: &Vec<HandlerParam>, want_path: bool) -> (found: Option<Type>)
    ensures
        shape_view(found) == marked(
            params_view(params@),
            if want_path {
                ParamAttrView::Path
            } else {
                ParamAttrView::Query
            },
        ),
{
    let ghost mark = if want_path {
        ParamAttrView::Path
    } else {
        ParamAttrView::Query
    };
    let ghost models = params_view(params@);
    let mut i: usize = params.len();
    while i > 0
        invariant
            i <= params.len(),
            models == params_view(params@),
            mark == if want_path {
                ParamAttrView::Path
            } else {
                ParamAttrView::Query
            },
            forall|j: int| i <= j < params.len() ==> !(#[trigger] models[j]).attrs.contains(mark),
        decreases i,
    {
        i -= 1;
        assert(models[i as int] == params@[i as int]@);
        if bears(&params[i].attrs, want_path) {
            proof {
                assert(last_marked(models, mark, i as int));
                let at = choose|at: int| last_marked(models, mark, at);
                if at < i {
                    assert(!models[i as int].attrs.contains(mark));
                }
                if at > i {
                    assert(!models[at].attrs.contains(mark));
                }
            }
            return Some(params[i].ty.duplicate());
        }
    }
    proof {
        assert forall|at: int| !last_marked(models, mark, at) by {
            if 0 <= at < models.len() {
                assert(!models[at].attrs.contains(mark));
            }
        }
    }
    None
}

/// The number of path parameters that a value of the shape `shape`
/// provides, where the shape tells.
fn arity_of(shape: &Type) -> (n: Option<usize>)
    ensures
        n is Some <==> arity(shape@) is Some,
        n is Some ==> n->0 == arity(shape@)->0,
    decreases shape,
{
    match shape {
        Type::Primitive(_) => Some(1),
        Type::Tuple(items) => {
            proof {
                lemma_tuple_view(*items);
            }
            Some(items.len())
        },
        Type::Option(inner) => arity_of(inner),
        _ => None,
    }
}

/// The annotations of `attrs` that stay on the handler.
fn keep_attrs(attrs: &Vec<HandlerAttr>) -> (kept: Vec<HandlerAttr>)
    ensures
        attrs_view(kept@) == staying(attrs_view(attrs@)),
{
    let ghost models = attrs_view(attrs@);
    let mut kept: Vec<HandlerAttr> = Vec::new();
    let mut i: usize = 0;
    assert(models.subrange(0, 0) =~= Seq::empty());
    assert(attrs_view(kept@) =~= Seq::empty());
    while i < attrs.len()
        invariant
            i <= attrs.len(),
            models == attrs_view(attrs@),
            attrs_view(kept@) == staying(models.subrange(0, i as int)),
        decreases attrs.len() - i,
    {
        let ghost before = attrs_view(kept@);
        proof {
            let longer = models.subrange(0, i + 1);
            assert(longer.drop_last() =~= models.subrange(0, i as int));
            assert(longer.last() == attrs@[i as int]@);
        }
        match &attrs[i] {
            HandlerAttr::Doc(arg) => {
                let copy = HandlerAttr::Doc(arg.clone());
                kept.push(copy);
                assert(attrs_view(kept@) =~= before.push(attrs@[i as int]@));
            },
            HandlerAttr::Other(name) => {
                let copy = HandlerAttr::Other(name.clone());
                kept.push(copy);
                assert(attrs_view(kept@) =~= before.push(attrs@[i as int]@));
            },
            _ => {},
        }
        i += 1;
    }
    assert(models.subrange(0, attrs@.len() as int) =~= models);
    kept
}

/// The annotations of `attrs` that are not marks of the route.
fn keep_param_attrs(attrs: &Vec<ParamAttr>) -> (kept: Vec<ParamAttr>)
    ensures
        param_attrs_view(kept@) == unmarked(param_attrs_view(attrs@)),
{
    let ghost models = param_attrs_view(attrs@);
    let mut kept: Vec<ParamAttr> = Vec::new();
    let mut i: usize = 0;
    assert(models.subrange(0, 0) =~= Seq::empty());
    assert(param_attrs_view(kept@) =~= Seq::empty());
    while i < attrs.len()
        invariant
            i <= attrs.len(),
            models == param_attrs_view(attrs@),
            param_attrs_view(kept@) == unmarked(models.subrange(0, i as int)),
        decreases attrs.len() - i,
    {
        let ghost before = param_attrs_view(kept@);
        proof {
            let longer = models.subrange(0, i + 1);
            assert(longer.drop_last() =~= models.subrange(0, i as int));
            assert(longer.last() == attrs@[i as int]@);
        }
        match &attrs[i] {
            ParamAttr::Other(name) => {
                kept.push(ParamAttr::Other(name.clone()));
                assert(param_attrs_view(kept@) =~= before.push(attrs@[i as int]@));
            },
            _ => {},
        }
        i += 1;
    }
    assert(models.subrange(0, attrs@.len() as int) =~= models);
    kept
}

/// The handler `item` without the annotations of the route.
fn clean(item: &HandlerFn) -> (out: HandlerFn)
    ensures
        out@ == cleaned(item@),
{
    let mut params: Vec<HandlerParam> = Vec::new();
    let mut i: usize = 0;
    while i < item.params.len()
        invariant
            i <= item.params.len(),
            params.len() == i,
            forall|j: int|
                0 <= j < i ==> (#[trigger] params@[j])@ == (HandlerParamView {
                    attrs: unmarked(item.params@[j]@.attrs),
                    ty: item.params@[j]@.ty,
                }),
        decreases item.params.len() - i,
    {
        let param = HandlerParam {
            attrs: keep_param_attrs(&item.params[i].attrs),
            ty: item.params[i].ty.duplicate(),
        };
        params.push(param);
        i += 1;
    }
    let out = HandlerFn {
        name: item.name.clone(),
        src_file: item.src_file.clone(),
        attrs: keep_attrs(&item.attrs),
        params,
    };
    assert(out@.params =~= cleaned(item@).params);
    out
}

/// The shape of the path parameters that `models` stand for.
fn params_from(models: Vec<Type>) -> (params: Option<Type>)
    ensures
        shape_view(params) == params_of(types_view(models@)),
{
    let mut models = models;
    if models.len() == 0 {
        None
    } else if models.len() == 1 {
        let only = models.pop();
        Some(only.unwrap())
    } else {
        proof {
            lemma_tuple_view(models);
        }
        Some(Type::Tuple(models))
    }
}

/// Makes the record of the route that the handler `item` answers, with
/// the method `method`, at the path that `args` gives; and takes the
/// annotations of the route off the handler.
///
/// Fails where the path is not a string, where an annotation is
/// malformed, and where the path has another number of parameters than
/// the handler's path parameters provide.
pub fn route(method: Method, args: &Arg, item: &HandlerFn) -> (made: Result<
    RouteOutput,
    SpecError,
>)
    ensures
        match route_of(method, args@, item@) {
            Ok(out) => made is Ok && made->Ok_0@ == out,
            Err(e) => made is Err && made->Err_0@ == e,
        },
{
    let path = match args {
        Arg::Str(path) => path,
        _ => {
            return Err(
                SpecError::MalformedMetadata { route: item.name.clone(), piece: Metadata::Path },
            );
        },
    };
    let gathered = match gather_attrs(&item.attrs) {
        Ok(gathered) => gathered,
        Err(piece) => {
            return Err(SpecError::MalformedMetadata { route: item.name.clone(), piece });
        },
    };
    let ghost said = gathered@;
    let Gathering { doc, models, request, responses } = gathered;
    let params = match find_marked(&item.params, true) {
        Some(shape) => Some(shape),
        None => params_from(models),
    };
    assert(shape_view(params) == path_params(item@, said));
    let declared = count_params(path.as_str());
    match &params {
        Some(shape) => match arity_of(shape) {
            Some(provided) => {
                if provided != declared {
                    return Err(
                        SpecError::ConfigurationMismatch {
                            route: item.name.clone(),
                            path: path.clone(),
                            declared,
                            provided,
                        },
                    );
                }
            },
            None => {},
        },
        None => {},
    }
    let query = match find_marked(&item.params, false) {
        Some(shape) => Some(QuerySpec { type_desc: shape, is_optional: false }),
        None => None,
    };
    let doc = if doc.as_str().unicode_len() == 0 {
        None
    } else {
        Some(doc)
    };
    let spec = RouteSpec {
        name: item.name.clone(),
        path: PathSpec { value: path.clone(), params },
        method,
        src_file: item.src_file.clone(),
        doc,
        query,
        request,
        responses,
    };
    Ok(RouteOutput { item: clean(item), spec })
}

} // verus!
