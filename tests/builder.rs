use geckolib::builder::{next_state, validate_config, BuildError, BuildState, BuildStep, Builder, ConfigSummary};

fn config(has_patch_code: bool) -> ConfigSummary {
    ConfigSummary {
        has_source: true,
        has_output_image: true,
        has_output_map: false,
        has_patch_code,
        has_link_base: true,
    }
}

#[test]
fn patch_before_link_is_out_of_order_with_patch_code() {
    let mut b = Builder::new();
    b.load_config(&config(true)).unwrap();
    assert_eq!(b.advance(BuildStep::MountSource), Ok(BuildState::SourceMounted));
    assert_eq!(b.advance(BuildStep::Patch), Err(BuildError::InvalidBuilderState));
    assert_eq!(b.state(), BuildState::SourceMounted);
    assert_eq!(b.advance(BuildStep::Link), Ok(BuildState::Linked));
    assert_eq!(b.advance(BuildStep::Patch), Ok(BuildState::Patched));
}

#[test]
fn build_without_patch_code_skips_linking() {
    let mut b = Builder::new();
    b.load_config(&config(false)).unwrap();
    assert_eq!(b.advance(BuildStep::MountSource), Ok(BuildState::SourceMounted));
    assert_eq!(b.advance(BuildStep::Patch), Ok(BuildState::Patched));
    assert_eq!(b.advance(BuildStep::Serialize), Ok(BuildState::Serialized));
    assert_eq!(b.advance(BuildStep::Finish), Ok(BuildState::Done));
    assert_eq!(b.advance(BuildStep::Finish), Err(BuildError::InvalidBuilderState));
}

#[test]
fn config_is_validated() {
    let mut c = config(true);
    c.has_link_base = false;
    assert_eq!(validate_config(&c), Some(BuildError::MissingLinkBase));
    let mut b = Builder::new();
    assert_eq!(b.load_config(&c), Err(BuildError::MissingLinkBase));
    assert_eq!(b.state(), BuildState::Created);
    c.has_output_image = false;
    assert_eq!(validate_config(&c), Some(BuildError::MissingOutput));
    c.has_source = false;
    assert_eq!(validate_config(&c), Some(BuildError::MissingSource));
    assert_eq!(validate_config(&config(false)), None);
}

#[test]
fn operations_out_of_order_are_refused() {
    let mut b = Builder::new();
    assert_eq!(b.advance(BuildStep::MountSource), Err(BuildError::InvalidBuilderState));
    assert_eq!(b.advance(BuildStep::LoadConfig), Err(BuildError::InvalidBuilderState));
    b.load_config(&config(false)).unwrap();
    assert_eq!(b.load_config(&config(false)), Err(BuildError::InvalidBuilderState));
    assert_eq!(next_state(BuildState::Created, BuildStep::Serialize, false), Err(BuildError::InvalidBuilderState));
}
