//! Command-line overrides of the context options.
use vstd::prelude::*;

verus! {

/// Command-line arguments of a geng application; each one that is given
/// overrides the matching context option.
#[derive(Debug, Clone, Default)]
pub struct CliArgs {
    /// Turn vertical synchronization on/off
    pub vsync: Option<bool>,
    /// Turn antialiasing on/off
    pub antialias: Option<bool>,
    /// Start with given window width (also requires window-height)
    pub window_width: Option<usize>,
    /// Start with given window height (also requires window-width)
    pub window_height: Option<usize>,
    /// Start in fullscreen
    pub fullscreen: Option<bool>,
    /// Enable/disable hot reloading of assets
    pub hot_reload: Option<bool>,
}

/// The context options that command-line arguments can set.
#[derive(Debug, Clone, Copy)]
pub struct ContextFlags {
    pub vsync: bool,
    pub antialias: bool,
    pub window_size: Option<(usize, usize)>,
    pub fullscreen: bool,
    pub hot_reload: bool,
}

/// The options `defaults` with each option that `args` gives replaced; the
/// window size only when both width and height are given.
pub open spec fn apply_args(defaults: ContextFlags, args: CliArgs) -> ContextFlags {
    ContextFlags {
        vsync: match args.vsync {
            Some(v) => v,
            None => defaults.vsync,
        },
        antialias: match args.antialias {
            Some(v) => v,
            None => defaults.antialias,
        },
        window_size: match (args.window_width, args.window_height) {
            (Some(w), Some(h)) => Some((w, h)),
            _ => defaults.window_size,
        },
        fullscreen: match args.fullscreen {
            Some(v) => v,
            None => defaults.fullscreen,
        },
        hot_reload: match args.hot_reload {
            Some(v) => v,
            None => defaults.hot_reload,
        },
    }
}

impl ContextFlags {
    /// The options `defaults`, with each option that `args` gives replaced;
    /// the window size only when both width and height are given.
    pub fn from_args(defaults: ContextFlags, args: &CliArgs) -> (r: ContextFlags)
        ensures
            r == apply_args(defaults, *args),
    {
        let mut options = defaults;
        if let Some(vsync) = args.vsync {
            options.vsync = vsync;
        }
        if let Some(antialias) = args.antialias {
            options.antialias = antialias;
        }
        if let (Some(window_width), Some(window_height)) = (args.window_width, args.window_height) {
            options.window_size = Some((window_width, window_height));
        }
        if let Some(fullscreen) = args.fullscreen {
            options.fullscreen = fullscreen;
        }
        if let Some(hot_reload) = args.hot_reload {
            options.hot_reload = hot_reload;
        }
        options
    }
}

/// Arguments that are not given change nothing, and applying the same
/// arguments a second time changes nothing more.
pub proof fn law_args_override_once(defaults: ContextFlags, args: CliArgs)
    ensures
        apply_args(
            defaults,
            CliArgs {
                vsync: None,
                antialias: None,
                window_width: None,
                window_height: None,
                fullscreen: None,
                hot_reload: None,
            },
        ) == defaults,
        apply_args(apply_args(defaults, args), args) == apply_args(defaults, args),
{
}

/// An option given on the command line is the option's value afterwards,
/// whatever the default was; an option not given keeps its default; the
/// window size is the given width and height when both are given.
pub proof fn law_given_option_wins(defaults: ContextFlags, args: CliArgs)
    ensures
        forall|v: bool| args.vsync == Some(v) ==> apply_args(defaults, args).vsync == v,
        forall|v: bool| args.antialias == Some(v) ==> apply_args(defaults, args).antialias == v,
        forall|v: bool| args.fullscreen == Some(v) ==> apply_args(defaults, args).fullscreen == v,
        forall|v: bool| args.hot_reload == Some(v) ==> apply_args(defaults, args).hot_reload == v,
        forall|w: usize, h: usize|
            args.window_width == Some(w) && args.window_height == Some(h) ==> apply_args(
                defaults,
                args,
            ).window_size == Some((w, h)),
        args.vsync is None ==> apply_args(defaults, args).vsync == defaults.vsync,
        args.antialias is None ==> apply_args(defaults, args).antialias == defaults.antialias,
        args.fullscreen is None ==> apply_args(defaults, args).fullscreen == defaults.fullscreen,
        args.hot_reload is None ==> apply_args(defaults, args).hot_reload == defaults.hot_reload,
        args.window_width is None || args.window_height is None ==> apply_args(
            defaults,
            args,
        ).window_size == defaults.window_size,
{
}

} // verus!
