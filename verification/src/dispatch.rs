//! What the arguments of the workspace manager ask for, and the changes to
//! the list of workspaces that follow.

use crate::config::Config;
use crate::text::{str_eq, string_views};
use vstd::prelude::*;
use vstd::string::*;

verus! {

/// Where the path of a workspace comes from.
#[derive(Debug)]
pub enum PathSource {
    /// The directory in which the program was started.
    CurrentDir,
    /// The path given on the command line.
    Given(String),
}

/// The mathematical value of a [`PathSource`].
pub enum PathSourceView {
    CurrentDir,
    Given(Seq<char>),
}

impl View for PathSource {
    type V = PathSourceView;

    open spec fn view(&self) -> PathSourceView {
        match self {
            PathSource::CurrentDir => PathSourceView::CurrentDir,
            PathSource::Given(path) => PathSourceView::Given(path@),
        }
    }
}

/// What the user asked the program to do.
#[derive(Debug)]
pub enum Request {
    /// Pick a workspace and go to its session.
    Select,
    /// Register a workspace.
    Add(PathSource),
    /// Forget a workspace.
    Remove(PathSource),
    /// List the registered workspaces.
    List,
}

/// The mathematical value of a [`Request`].
pub enum RequestView {
    Select,
    Add(PathSourceView),
    Remove(PathSourceView),
    List,
}

impl View for Request {
    type V = RequestView;

    open spec fn view(&self) -> RequestView {
        match self {
            Request::Select => RequestView::Select,
            Request::Add(source) => RequestView::Add(source@),
            Request::Remove(source) => RequestView::Remove(source@),
            Request::List => RequestView::List,
        }
    }
}

/// Why a request was turned down.
#[derive(Debug)]
pub enum RequestError {
    /// The first argument is none of `add`, `remove` and `ls`.
    UnknownArgument(String),
    /// More arguments were given than a path needs.
    TooManyArguments,
    /// The workspace to add is registered already.
    AlreadyExists,
    /// The workspace to remove is not registered.
    DoesNotExist,
}

/// The mathematical value of a [`RequestError`].
pub enum RequestErrorView {
    UnknownArgument(Seq<char>),
    TooManyArguments,
    AlreadyExists,
    DoesNotExist,
}

impl RequestErrorView {
    /// The one-line message for this error.
    pub open spec fn message(self) -> Seq<char> {
        match self {
            RequestErrorView::UnknownArgument(name) => "unknown argument: "@ + name
                + ". Use (add, remove or ls)"@,
            RequestErrorView::TooManyArguments => "too many arguments"@,
            RequestErrorView::AlreadyExists => "workspace already exists"@,
            RequestErrorView::DoesNotExist => "workspace does not exist"@,
        }
    }
}

impl View for RequestError {
    type V = RequestErrorView;

    open spec fn view(&self) -> RequestErrorView {
        match self {
            RequestError::UnknownArgument(name) => RequestErrorView::UnknownArgument(name@),
            RequestError::TooManyArguments => RequestErrorView::TooManyArguments,
            RequestError::AlreadyExists => RequestErrorView::AlreadyExists,
            RequestError::DoesNotExist => RequestErrorView::DoesNotExist,
        }
    }
}

impl RequestError {
    /// The one-line message for this error.
    pub fn message(&self) -> (r: String)
        ensures
            r@ == self@.message(),
    {
        match self {
            RequestError::UnknownArgument(name) => {
                let mut out = String::new();
                out.append("unknown argument: ");
                out.append(name.as_str());
                out.append(". Use (add, remove or ls)");
                assert(out@ =~= self@.message());
                out
            },
            RequestError::TooManyArguments => "too many arguments".to_owned(),
            RequestError::AlreadyExists => "workspace already exists".to_owned(),
            RequestError::DoesNotExist => "workspace does not exist".to_owned(),
        }
    }
}

/// The value of the outcome of a decision that yields a path source.
pub open spec fn source_outcome(r: Result<PathSource, RequestError>) -> Result<
    PathSourceView,
    RequestErrorView,
> {
    match r {
        Ok(source) => Ok(source@),
        Err(error) => Err(error@),
    }
}

/// The value of the outcome of a decision that yields a request.
pub open spec fn request_outcome(r: Result<Request, RequestError>) -> Result<
    RequestView,
    RequestErrorView,
> {
    match r {
        Ok(request) => Ok(request@),
        Err(error) => Err(error@),
    }
}

/// Where the path comes from, by the number of arguments: with two, the
/// current directory; with three, the third argument; any other number is
/// turned down.
pub open spec fn path_source_spec(args: Seq<Seq<char>>) -> Result<
    PathSourceView,
    RequestErrorView,
> {
    if args.len() == 2 {
        Ok(PathSourceView::CurrentDir)
    } else if args.len() == 3 {
        Ok(PathSourceView::Given(args[2]))
    } else {
        Err(RequestErrorView::TooManyArguments)
    }
}

/// The request that the arguments state, when there are at least two: the
/// second argument names the action.
pub open spec fn modify_spec(args: Seq<Seq<char>>) -> Result<RequestView, RequestErrorView> {
    if args[1] == "add"@ {
        match path_source_spec(args) {
            Ok(source) => Ok(RequestView::Add(source)),
            Err(error) => Err(error),
        }
    } else if args[1] == "remove"@ {
        match path_source_spec(args) {
            Ok(source) => Ok(RequestView::Remove(source)),
            Err(error) => Err(error),
        }
    } else if args[1] == "ls"@ {
        Ok(RequestView::List)
    } else {
        Err(RequestErrorView::UnknownArgument(args[1]))
    }
}

/// The request that the arguments state: with nothing behind the program
/// name, to select a workspace; otherwise what the second argument names.
pub open spec fn request_spec(args: Seq<Seq<char>>) -> Result<RequestView, RequestErrorView> {
    if args.len() <= 1 {
        Ok(RequestView::Select)
    } else {
        modify_spec(args)
    }
}

/// Decides where the path of the workspace comes from.
pub fn get_path_from_args(args: &[String]) -> (r: Result<PathSource, RequestError>)
    ensures
        source_outcome(r) == path_source_spec(string_views(args@)),
{
    if args.len() == 2 {
        Ok(PathSource::CurrentDir)
    } else if args.len() == 3 {
        Ok(PathSource::Given(args[2].clone()))
    } else {
        Err(RequestError::TooManyArguments)
    }
}

/// Decides which change or listing the arguments ask for.
pub fn handle_ws_modify(args: &[String]) -> (r: Result<Request, RequestError>)
    requires
        args@.len() >= 2,
    ensures
        request_outcome(r) == modify_spec(string_views(args@)),
{
    let main_arg = args[1].as_str();
    if str_eq(main_arg, "add") {
        match get_path_from_args(args) {
            Ok(source) => Ok(Request::Add(source)),
            Err(error) => Err(error),
        }
    } else if str_eq(main_arg, "remove") {
        match get_path_from_args(args) {
            Ok(source) => Ok(Request::Remove(source)),
            Err(error) => Err(error),
        }
    } else if str_eq(main_arg, "ls") {
        Ok(Request::List)
    } else {
        Err(RequestError::UnknownArgument(args[1].clone()))
    }
}

/// Decides what the program is asked to do.
pub fn handle_app(args: &[String]) -> (r: Result<Request, RequestError>)
    ensures
        request_outcome(r) == request_spec(string_views(args@)),
{
    if args.len() <= 1 {
        Ok(Request::Select)
    } else {
        handle_ws_modify(args)
    }
}

/// Registers the workspace unless it is registered already.
pub fn handle_add(config: &mut Config, path: &str) -> (r: Result<(), RequestError>)
    ensures
        r is Ok <==> !old(config)@.contains(path@),
        r is Ok ==> final(config)@ == old(config)@.push(path@),
        r is Err ==> r->Err_0@ == RequestErrorView::AlreadyExists && final(config)@ == old(
            config,
        )@,
{
    if config.has_ws(path) {
        return Err(RequestError::AlreadyExists);
    }
    config.add_ws(path);
    Ok(())
}

/// Forgets the workspace if it is registered.
pub fn handle_remove(config: &mut Config, path: &str) -> (r: Result<(), RequestError>)
    ensures
        r is Ok <==> old(config)@.contains(path@),
        r is Ok ==> final(config)@ == old(config)@.filter(|p: Seq<char>| p != path@),
        r is Err ==> r->Err_0@ == RequestErrorView::DoesNotExist && final(config)@ == old(
            config,
        )@,
{
    if !config.has_ws(path) {
        return Err(RequestError::DoesNotExist);
    }
    config.remove_ws(path);
    Ok(())
}

} // verus!
