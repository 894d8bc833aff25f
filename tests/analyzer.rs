use snailcrypt::{AnalyzerFactory, Analyzer, ClientVersion};

#[test]
fn version_v1_parse_ok() {
    let analyzer_factory = AnalyzerFactory::new();
    let analyzer = analyzer_factory.create();

    /* Arbitrary text */
    assert!(
        analyzer.get_version("1:asdf:asdf").unwrap_or_else(|error| {
            panic!("Error: {:?}", error);
        }) == ClientVersion::V1
    );

    /* Actual cipher text */
    assert!(
        analyzer.get_version("1:MjAyMi0xMS0xOVQxNzowMDowMCswMTAw:jbTjg8y9U5g95BP/LKQHbE2pSBDYFnILpgFbqFfqXbdMYUGUh3v1R040d+eHZuYzOe55qKf8Q16J8zvawKmMejhlVGTOhLHobnJvtL08S184v9/HxGL1A1ZrtgoAiuxd7DZLLxAOQSzJoBlRG2jz9AhcCQI5pXn1EujvMICv2dusnmrjuzxPRnu2NtaXJNpzEycGSwTxoXuxWOb93YXaJlVOcS7mMjSQG5tLBA84AYFoeqJcERITSzsRcckMU0uOEWLm66OtiLrDRgmRo/0xSUIn+kocjI7RExl1FgeeqppDuR1C9CgCrIicSbvsiqn6zlrf1wyz+lMw0sUGOCU3xQ==").unwrap_or_else(|error| {
            panic!("Error: {:?}", error);
        }) == ClientVersion::V1
    );
}

#[test]
fn version_v1_parse_nok() {
    let mut error_thrown: bool;

    let analyzer_factory = AnalyzerFactory::new();
    let analyzer = analyzer_factory.create();

    /* Arbitrary text */
    error_thrown = false;
    analyzer.get_version(":asdf:asdf").unwrap_or_else(|error| {
        assert_eq!(error.to_string().as_str(), "Unknown client version: ");
        error_thrown = true;
        return ClientVersion::V1;
    });
    assert_eq!(error_thrown, true);

    /* Actual cipher text */
    error_thrown = false;
    analyzer.get_version("MjAyMi0xMS0xOVQxNzowMDowMCswMTAw:jbTjg8y9U5g95BP/LKQHbE2pSBDYFnILpgFbqFfqXbdMYUGUh3v1R040d+eHZuYzOe55qKf8Q16J8zvawKmMejhlVGTOhLHobnJvtL08S184v9/HxGL1A1ZrtgoAiuxd7DZLLxAOQSzJoBlRG2jz9AhcCQI5pXn1EujvMICv2dusnmrjuzxPRnu2NtaXJNpzEycGSwTxoXuxWOb93YXaJlVOcS7mMjSQG5tLBA84AYFoeqJcERITSzsRcckMU0uOEWLm66OtiLrDRgmRo/0xSUIn+kocjI7RExl1FgeeqppDuR1C9CgCrIicSbvsiqn6zlrf1wyz+lMw0sUGOCU3xQ==").unwrap_or_else(|error| {
        assert_eq!(
            error.to_string().as_str(),
            "Unknown client version: MjAyMi0xMS0xOVQxNzowMDowMCswMTAw"
        );
        error_thrown = true;
        return ClientVersion::V1;
    });
    assert_eq!(error_thrown, true);
}

#[test]
fn version_v2_parse_ok() {
    let analyzer_factory = AnalyzerFactory::new();
    let analyzer = analyzer_factory.create();

    /* Arbitrary text */
    assert!(
        analyzer.get_version("2:asdf:asdf:asdf").unwrap_or_else(|error| {
            panic!("Error: {:?}", error);
        }) == ClientVersion::V2
    );

    /* Actual cipher text */
    assert!(
        analyzer.get_version("2:MjAyMi0xMS0xOVQxNzowMDowMCswMTAw:jbTjg8y9U5g95BP/LKQHbE2pSBDYFnILpgFbqFfqXbdMYUGUh3v1R040d+eHZuYzOe55qKf8Q16J8zvawKmMejhlVGTOhLHobnJvtL08S184v9/HxGL1A1ZrtgoAiuxd7DZLLxAOQSzJoBlRG2jz9AhcCQI5pXn1EujvMICv2dusnmrjuzxPRnu2NtaXJNpzEycGSwTxoXuxWOb93YXaJlVOcS7mMjSQG5tLBA84AYFoeqJcERITSzsRcckMU0uOEWLm66OtiLrDRgmRo/0xSUIn+kocjI7RExl1FgeeqppDuR1C9CgCrIicSbvsiqn6zlrf1wyz+lMw0sUGOCU3xQ==:asdf").unwrap_or_else(|error| {
            panic!("Error: {:?}", error);
        }) == ClientVersion::V2
    );
}

#[test]
fn version_v2_parse_nok() {
    let mut error_thrown: bool;

    let analyzer_factory = AnalyzerFactory::new();
    let analyzer = analyzer_factory.create();

    /* Arbitrary text */
    error_thrown = false;
    analyzer.get_version(":asdf:asdf:asdf").unwrap_or_else(|error| {
        assert_eq!(error.to_string().as_str(), "Unknown client version: ");
        error_thrown = true;
        return ClientVersion::V2;
    });
    assert_eq!(error_thrown, true);

    /* Actual cipher text */
    error_thrown = false;
    analyzer.get_version("MjAyMi0xMS0xOVQxNzowMDowMCswMTAw:jbTjg8y9U5g95BP/LKQHbE2pSBDYFnILpgFbqFfqXbdMYUGUh3v1R040d+eHZuYzOe55qKf8Q16J8zvawKmMejhlVGTOhLHobnJvtL08S184v9/HxGL1A1ZrtgoAiuxd7DZLLxAOQSzJoBlRG2jz9AhcCQI5pXn1EujvMICv2dusnmrjuzxPRnu2NtaXJNpzEycGSwTxoXuxWOb93YXaJlVOcS7mMjSQG5tLBA84AYFoeqJcERITSzsRcckMU0uOEWLm66OtiLrDRgmRo/0xSUIn+kocjI7RExl1FgeeqppDuR1C9CgCrIicSbvsiqn6zlrf1wyz+lMw0sUGOCU3xQ==:asdf").unwrap_or_else(|error| {
        assert_eq!(
            error.to_string().as_str(),
            "Unknown client version: MjAyMi0xMS0xOVQxNzowMDowMCswMTAw"
        );
        error_thrown = true;
        return ClientVersion::V2;
    });
    assert_eq!(error_thrown, true);
}

#[test]
fn version_v3_parse_ok() {
    let analyzer_factory = AnalyzerFactory::new();
    let analyzer = analyzer_factory.create();

    /* Arbitrary text */
    assert!(
        analyzer.get_version("3:asdf:asdf:asdf:asdf").unwrap_or_else(|error| {
            panic!("Error: {:?}", error);
        }) == ClientVersion::V3
    );

    /* Actual cipher text */
    assert!(
        analyzer.get_version("3:MjAyMi0xMS0xOVQxNzowMDowMCswMTAw:jbTjg8y9U5g95BP/LKQHbE2pSBDYFnILpgFbqFfqXbdMYUGUh3v1R040d+eHZuYzOe55qKf8Q16J8zvawKmMejhlVGTOhLHobnJvtL08S184v9/HxGL1A1ZrtgoAiuxd7DZLLxAOQSzJoBlRG2jz9AhcCQI5pXn1EujvMICv2dusnmrjuzxPRnu2NtaXJNpzEycGSwTxoXuxWOb93YXaJlVOcS7mMjSQG5tLBA84AYFoeqJcERITSzsRcckMU0uOEWLm66OtiLrDRgmRo/0xSUIn+kocjI7RExl1FgeeqppDuR1C9CgCrIicSbvsiqn6zlrf1wyz+lMw0sUGOCU3xQ==:asdf:test.txt").unwrap_or_else(|error| {
            panic!("Error: {:?}", error);
        }) == ClientVersion::V3
    );
}

#[test]
fn version_v3_parse_nok() {
    let mut error_thrown: bool;

    let analyzer_factory = AnalyzerFactory::new();
    let analyzer = analyzer_factory.create();

    /* Arbitrary text */
    error_thrown = false;
    analyzer.get_version(":asdf:asdf:asdf").unwrap_or_else(|error| {
        assert_eq!(error.to_string().as_str(), "Unknown client version: ");
        error_thrown = true;
        return ClientVersion::V3;
    });
    assert_eq!(error_thrown, true);

    /* Actual cipher text */
    error_thrown = false;
    analyzer.get_version("MjAyMi0xMS0xOVQxNzowMDowMCswMTAw:jbTjg8y9U5g95BP/LKQHbE2pSBDYFnILpgFbqFfqXbdMYUGUh3v1R040d+eHZuYzOe55qKf8Q16J8zvawKmMejhlVGTOhLHobnJvtL08S184v9/HxGL1A1ZrtgoAiuxd7DZLLxAOQSzJoBlRG2jz9AhcCQI5pXn1EujvMICv2dusnmrjuzxPRnu2NtaXJNpzEycGSwTxoXuxWOb93YXaJlVOcS7mMjSQG5tLBA84AYFoeqJcERITSzsRcckMU0uOEWLm66OtiLrDRgmRo/0xSUIn+kocjI7RExl1FgeeqppDuR1C9CgCrIicSbvsiqn6zlrf1wyz+lMw0sUGOCU3xQ==:asdf:test.txt").unwrap_or_else(|error| {
        assert_eq!(
            error.to_string().as_str(),
            "Unknown client version: MjAyMi0xMS0xOVQxNzowMDowMCswMTAw"
        );
        error_thrown = true;
        return ClientVersion::V3;
    });
    assert_eq!(error_thrown, true);
}
