use zterm_llm::footer::{WarpificationMode, ZtermifyFooterView, ZtermifyFooterViewAction, ZtermifyFooterViewEvent};
use zterm_llm::links::{feedback_form_url, USER_DOCS_URL};
use zterm_llm::loading::loading_label;
use zterm_llm::dev_images::{ImageTag, ListZtermDevImagesOutput, ListZtermDevImagesResult};

#[test]
fn footer_modes() {
    let mut f = ZtermifyFooterView::new();
    assert_eq!(f.mode(), None);
    assert_eq!(f.warpify_label(), "Ztermify subshell");
    assert_eq!(f.warpify_binding(), None);
    f.set_mode(WarpificationMode::Ssh);
    assert_eq!(f.warpify_label(), "Ztermify SSH session");
    assert_eq!(f.warpify_binding(), Some("terminal:warpify_ssh_session"));
    assert_eq!(f.handle_action(ZtermifyFooterViewAction::Ztermify), Some(ZtermifyFooterViewEvent::Ztermify { mode: WarpificationMode::Ssh }));
    assert_eq!(f.mode(), None);
    assert_eq!(f.warpify_binding(), None);
    assert_eq!(f.handle_action(ZtermifyFooterViewAction::Ztermify), None);
    f.set_mode(WarpificationMode::Subshell);
    assert_eq!(f.warpify_binding(), Some("terminal:warpify_subshell"));
    assert_eq!(f.handle_action(ZtermifyFooterViewAction::UseAgent), Some(ZtermifyFooterViewEvent::UseAgent));
    assert_eq!(f.mode(), None);
    assert_eq!(f.handle_action(ZtermifyFooterViewAction::Dismiss), Some(ZtermifyFooterViewEvent::Dismiss));
    f.set_mode(WarpificationMode::Subshell);
    f.clear_mode();
    assert_eq!(f.mode(), None);
    assert_eq!(f.warpify_label(), "Ztermify subshell");
}

#[test]
fn feedback_url() {
    assert_eq!(
        feedback_form_url(Some("v0.1.0"), "14.2"),
        Some("https://github.com/tzero86/Zterm/issues/new/choose?zterm-version=v0.1.0&os-version=14.2".to_string())
    );
    assert_eq!(
        feedback_form_url(None, "Ubuntu 22.04"),
        Some("https://github.com/tzero86/Zterm/issues/new/choose?os-version=Ubuntu+22.04".to_string())
    );
    assert_eq!(USER_DOCS_URL, "https://github.com/tzero86/Zterm");
}

#[test]
fn loading_text() {
    assert_eq!(loading_label("Thinking"), "\u{E500} Thinking");
}

#[test]
fn dev_images_result() {
    let r = ListZtermDevImagesResult::ListZtermDevImagesOutput(ListZtermDevImagesOutput {
        images: vec![ImageTag { image: "i".into(), repository: "r".into(), tag: "t".into() }],
    });
    assert!(matches!(r, ListZtermDevImagesResult::ListZtermDevImagesOutput(o) if o.images.len() == 1));
}
