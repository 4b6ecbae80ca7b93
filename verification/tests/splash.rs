//! The startup splash.

use otto_tui::splash::{
    max_width, rows, sections, should_show_splash, splash_variant, SplashVariant, ART, VERT_MARGIN,
};
use otto_tui::theme::Theme;

fn dims() -> (u16, u16, u16, u16) {
    let (banner, portrait) = sections(ART);
    let banner_w = max_width(&banner) as u16;
    let banner_h = banner.len() as u16;
    let full_w = banner_w.max(max_width(&portrait) as u16);
    let full_h = banner_h + 1 + portrait.len() as u16;
    (banner_w, banner_h, full_w, full_h)
}

#[test]
fn art_splits_into_banner_and_portrait() {
    let (banner, portrait) = sections(ART);
    assert!(!banner.is_empty(), "banner present");
    assert!(!portrait.is_empty(), "portrait present");
    assert!(
        portrait.iter().any(|l| l.contains('@')),
        "portrait is the @-art"
    );
    assert!(
        banner.iter().all(|l| !l.contains('@')),
        "banner excludes @-art"
    );
    assert!(!banner.last().unwrap().trim().is_empty());
    assert!(!portrait.last().unwrap().trim().is_empty());
}

#[test]
fn variant_picks_largest_that_fits() {
    let (banner_w, banner_h, full_w, full_h) = dims();

    assert_eq!(
        splash_variant(full_w, full_h + VERT_MARGIN),
        SplashVariant::Full
    );
    assert_eq!(
        splash_variant(full_w + 40, full_h + 20),
        SplashVariant::Full
    );

    let expect_narrow = if full_w > banner_w {
        SplashVariant::Banner
    } else {
        SplashVariant::Hidden
    };
    assert_eq!(
        splash_variant(full_w - 1, full_h + VERT_MARGIN),
        expect_narrow
    );

    assert_eq!(
        splash_variant(banner_w - 1, full_h + VERT_MARGIN),
        SplashVariant::Hidden
    );
    assert_eq!(
        splash_variant(full_w, banner_h + VERT_MARGIN - 1),
        SplashVariant::Hidden
    );
}

#[test]
fn show_policy() {
    assert!(should_show_splash(false, false, true));
    assert!(!should_show_splash(true, false, true), "--no-splash wins");
    assert!(
        !should_show_splash(false, true, true),
        "otto_NO_SPLASH wins"
    );
    assert!(!should_show_splash(false, false, false), "non-TTY skips");
}

#[test]
fn full_has_accent_banner_then_plain_portrait() {
    let (banner, portrait) = sections(ART);
    let theme = Theme::dark();
    let full = rows(ART, SplashVariant::Full, &theme);
    assert_eq!(full.len(), banner.len() + 1 + portrait.len());
    assert!(
        full[..banner.len()].iter().all(|l| l.spans[0].style == theme.accent),
        "banner rows accent"
    );
    assert!(
        full[banner.len() + 1..].iter().all(|l| l.spans[0].style == theme.text),
        "portrait rows plain"
    );
    assert_eq!(rows(ART, SplashVariant::Banner, &theme).len(), banner.len());
}
